use path_slash::{PathBuf, PathBufExt};

type WindowsPathBuf = PathBuf<true>;

#[test]
fn windows_with_driver_letter_to_slash() {
    let path = WindowsPathBuf::from_slash("C:/foo/bar");
    assert_eq!(path, WindowsPathBuf::from(r"C:\foo\bar"));
    let slash = path.to_slash().unwrap();
    assert_eq!(slash, "C:/foo/bar");
}

#[test]
fn windows_with_drive_letter_to_slash_lossy() {
    let path = WindowsPathBuf::from_slash("C:/foo/bar");
    assert_eq!(path, WindowsPathBuf::from(r"C:\foo\bar"));
    let slash = path.to_slash_lossy();
    assert_eq!(slash, "C:/foo/bar");
}

#[test]
fn windows_with_drive_letter_but_no_path_to_slash() {
    let path = WindowsPathBuf::from_slash("C:");
    assert_eq!(path, WindowsPathBuf::from(r"C:"));
    let slash = path.to_slash().unwrap();
    assert_eq!(slash, "C:");
}

#[test]
fn windows_with_drive_letter_but_no_path_to_slash_lossy() {
    let path = WindowsPathBuf::from_slash("C:");
    assert_eq!(path, WindowsPathBuf::from(r"C:"));
    let slash = path.to_slash_lossy();
    assert_eq!(slash, "C:");
}

#[test]
fn windows_with_verbatim_drive_letter_to_slash() {
    let path = WindowsPathBuf::from_slash(r"\\?\C:/foo/bar");
    assert_eq!(path, WindowsPathBuf::from(r"\\?\C:\foo\bar"));
    let slash = path.to_slash().unwrap();
    assert_eq!(slash, r"\\?\C:/foo/bar");
}

#[test]
fn windows_with_verbatim_drive_letter_to_slash_lossy() {
    let path = WindowsPathBuf::from_slash(r"\\?\C:/foo/bar");
    assert_eq!(path, WindowsPathBuf::from(r"\\?\C:\foo\bar"));
    let slash = path.to_slash_lossy();
    assert_eq!(slash, r"\\?\C:/foo/bar");
}

#[test]
fn windows_with_unc_prefix_to_slash() {
    let path = WindowsPathBuf::from_slash(r"\\server\share/foo/bar");
    assert_eq!(path, WindowsPathBuf::from(r"\\server\share\foo\bar"));
    let slash = path.to_slash().unwrap();
    assert_eq!(slash, r"\\server\share/foo/bar");
}

#[test]
fn windows_with_unc_prefix_to_slash_lossy() {
    let path = WindowsPathBuf::from_slash(r"\\server\share/foo/bar");
    assert_eq!(path, WindowsPathBuf::from(r"\\server\share\foo\bar"));
    let slash = path.to_slash_lossy();
    assert_eq!(slash, r"\\server\share/foo/bar");
}

#[test]
fn windows_with_unc_prefix_but_no_path_to_slash() {
    let path = WindowsPathBuf::from_slash(r"\\server\share");
    assert_eq!(path, WindowsPathBuf::from(r"\\server\share"));
    let slash = path.to_slash().unwrap();
    assert_eq!(slash, r"\\server\share");
}

#[test]
fn windows_with_unc_prefix_but_no_path_to_slash_lossy() {
    let path = WindowsPathBuf::from_slash(r"\\server\share");
    assert_eq!(path, WindowsPathBuf::from(r"\\server\share"));
    let slash = path.to_slash_lossy();
    assert_eq!(slash, r"\\server\share");
}

#[test]
fn windows_with_verbatim_unc_prefix_to_slash() {
    let path = WindowsPathBuf::from_slash(r"\\?\UNC\server\share/foo/bar");
    assert_eq!(path, WindowsPathBuf::from(r"\\?\UNC\server\share\foo\bar"));
    let slash = path.to_slash().unwrap();
    assert_eq!(slash, r"\\?\UNC\server\share/foo/bar");
}

#[test]
fn windows_with_verbatim_unc_prefix_to_slash_lossy() {
    let path = WindowsPathBuf::from_slash(r"\\?\UNC\server\share/foo/bar");
    assert_eq!(path, WindowsPathBuf::from(r"\\?\UNC\server\share\foo\bar"));
    let slash = path.to_slash_lossy();
    assert_eq!(slash, r"\\?\UNC\server\share/foo/bar");
}

#[test]
fn windows_with_verbatim_unc_prefix_but_no_path_to_slash() {
    let path = WindowsPathBuf::from_slash(r"\\?\UNC\server\share");
    assert_eq!(path, WindowsPathBuf::from(r"\\?\UNC\server\share"));
    let slash = path.to_slash().unwrap();
    assert_eq!(slash, r"\\?\UNC\server\share");
}

#[test]
fn windows_with_verbatim_unc_prefix_but_no_path_to_slash_lossy() {
    let path = WindowsPathBuf::from_slash(r"\\?\UNC\server\share");
    assert_eq!(path, WindowsPathBuf::from(r"\\?\UNC\server\share"));
    let slash = path.to_slash_lossy();
    assert_eq!(slash, r"\\?\UNC\server\share");
}
