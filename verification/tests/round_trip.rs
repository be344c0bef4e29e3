use path_slash::{name_of, Component, PathBufExt, Prefix, Unit, UnixPathBuf, WindowsPathBuf};

fn units(s: &str) -> Vec<Unit> {
    s.chars().map(Unit::Scalar).collect()
}

const WINDOWS_PATHS: [&str; 30] = [
    r"",
    r"\",
    r".",
    r"..",
    r"foo",
    r"foo\bar",
    r"foo\\bar\",
    r"foo/bar\baz",
    r".\foo",
    r"..\foo\..\bar",
    r"foo\.\bar\.",
    r"\foo\bar",
    r"\\foo",
    r"C:",
    r"C:foo",
    r"C:..\foo",
    r"C:\foo\bar",
    r"C:\\foo\\bar\\",
    r"c:/foo/./bar",
    r"\\server\share",
    r"\\server\share\",
    r"\\server\share\foo\\bar",
    r"\\.\COM42",
    r"\\.\COM42\foo",
    r"\\?\C:\foo\bar",
    r"\\?\C:\foo\.\bar",
    r"\\?\UNC\server\share\foo",
    r"\\?\pictures\kittens\",
    r"c:\foo\bar",
    r"\\Server\share\foo",
];

const SPELLED_WITH_SLASH: [&str; 5] = [
    r"//server/share/foo",
    r"\\server/share",
    r"//./COM42",
    r"//./COM42/foo//bar/",
    r"//server\share/./foo",
];

#[test]
fn windows_round_trip_keeps_the_components() {
    for native in WINDOWS_PATHS {
        let path = WindowsPathBuf::from(native);
        let slash = path.to_slash().unwrap();
        let back = WindowsPathBuf::from_slash(&slash);
        assert_eq!(back.components(), path.components(), "{native}");
        assert_eq!(back, path, "{native}");
    }
}

#[test]
fn windows_round_trip_gives_an_equal_path() {
    for native in WINDOWS_PATHS.iter().chain(SPELLED_WITH_SLASH.iter()) {
        let path = WindowsPathBuf::from(*native);
        let slash = path.to_slash().unwrap();
        let back = WindowsPathBuf::from_slash(&slash);
        assert_eq!(back, path, "{native}");
        assert_eq!(back.components().len(), path.components().len(), "{native}");
    }
}

#[test]
fn windows_slash_text_is_stable() {
    for native in WINDOWS_PATHS {
        let path = WindowsPathBuf::from(native);
        let slash = path.to_slash().unwrap();
        let back = WindowsPathBuf::from_slash(&slash);
        assert_eq!(back.to_slash().unwrap(), slash, "{native}");
    }
}

#[test]
fn windows_encoding_tells_paths_apart() {
    let all: Vec<&str> = WINDOWS_PATHS.iter().chain(SPELLED_WITH_SLASH.iter()).copied().collect();
    for a in all.iter() {
        for b in all.iter() {
            let (pa, pb) = (WindowsPathBuf::from(*a), WindowsPathBuf::from(*b));
            if pa.to_slash() == pb.to_slash() {
                assert_eq!(pa, pb, "{a} and {b}");
            }
            if pa.components() == pb.components() {
                assert_eq!(pa.to_slash(), pb.to_slash(), "{a} and {b}");
            }
        }
    }
}

#[test]
fn prefix_comes_back_in_another_spelling() {
    for (native, slash, back) in [
        (r"//server/share/foo", r"//server/share/foo", r"\\server\share\foo"),
        (r"\\server/share", r"\\server/share", r"\\server\share"),
        (r"//server/share", r"//server/share", r"\\server\share"),
        (r"//./COM42/foo", r"//./COM42/foo", r"\\.\COM42\foo"),
        (r"c:/foo", r"c:/foo", r"c:\foo"),
    ] {
        let path = WindowsPathBuf::from(native);
        assert_eq!(path.to_slash().unwrap(), slash);
        let decoded = WindowsPathBuf::from_slash(slash);
        assert_eq!(decoded.units, units(back));
        assert_eq!(decoded, path, "{native}");
        assert_eq!(decoded.components().len(), path.components().len());
    }
}

#[test]
fn share_on_the_server_named_by_a_question_mark_is_read_as_verbatim() {
    let path = WindowsPathBuf::from("//?/C:/foo");
    assert_eq!(
        path.components(),
        vec![
            Component::Prefix(units("//?/C:")),
            Component::RootDir,
            Component::Normal(units("foo")),
        ]
    );
    assert_eq!(name_of(&units("//?/C:")), Prefix::Unc(units("?"), units("C:")));
    let slash = path.to_slash().unwrap();
    assert_eq!(slash, "//?/C:/foo");
    let decoded = WindowsPathBuf::from_slash(&slash);
    assert_eq!(name_of(&units(r"\\?\C:")), Prefix::VerbatimDisk('C'));
    assert_ne!(decoded, path);
}

#[test]
fn bare_root_loses_its_root() {
    let bare = [(r"C:\", "C:"), (r"\\?\C:\", r"\\?\C:"), (r"\\?\pictures\", r"\\?\pictures")];
    for (native, slash) in bare {
        let path = WindowsPathBuf::from(native);
        assert_eq!(path.components().len(), 2);
        assert_eq!(path.components()[1], Component::RootDir);
        assert_eq!(path.to_slash().unwrap(), slash);
        assert_eq!(WindowsPathBuf::from_slash(slash).components().len(), 1);
    }
}

#[test]
fn name_after_a_shareless_server_is_read_as_the_share() {
    let path = WindowsPathBuf::from(r"\\?\UNC\server\\foo");
    assert_eq!(
        path.components(),
        vec![
            Component::Prefix(units(r"\\?\UNC\server")),
            Component::RootDir,
            Component::Normal(units("foo")),
        ]
    );
    let slash = path.to_slash().unwrap();
    assert_eq!(slash, r"\\?\UNC\server/foo");
    assert_eq!(
        WindowsPathBuf::from_slash(&slash).components(),
        vec![Component::Prefix(units(r"\\?\UNC\server\foo"))]
    );
}

#[test]
fn slash_in_a_verbatim_name_is_read_as_a_separator() {
    let path = WindowsPathBuf::from(r"\\?\C:\a/b");
    assert_eq!(path.components()[2], Component::Normal(units("a/b")));
    let slash = path.to_slash().unwrap();
    assert_eq!(slash, r"\\?\C:/a/b");
    assert_ne!(WindowsPathBuf::from_slash(&slash), path);
}

#[test]
fn unix_encoding_tells_texts_apart() {
    let texts = ["", "/", "foo", "foo/", "foo//bar", "foo/bar", "./foo", "foo/./bar"];
    for a in texts {
        for b in texts {
            let same = UnixPathBuf::from(a).to_slash() == UnixPathBuf::from(b).to_slash();
            assert_eq!(same, a == b);
        }
    }
}

#[test]
fn separator_at_the_end_changes_no_component() {
    for text in ["/", ".", "..", "foo", "/foo", "foo/bar", "./foo", "a//b", "foo/"] {
        let longer = format!("{text}/");
        assert_eq!(UnixPathBuf::from(longer.as_str()), UnixPathBuf::from(text), "{text}");
        assert_eq!(WindowsPathBuf::from(longer.as_str()), WindowsPathBuf::from(text), "{text}");
    }
    for text in [r"C:\foo", r"\\server\share\foo", r"\\?\C:\foo", r"C:foo", r"\\server\share"] {
        let longer = format!("{text}\\");
        assert_eq!(WindowsPathBuf::from(longer.as_str()), WindowsPathBuf::from(text), "{text}");
    }
    assert_ne!(UnixPathBuf::from("/"), UnixPathBuf::from(""));
    assert_ne!(WindowsPathBuf::from(r"C:\"), WindowsPathBuf::from("C:"));
}

#[test]
fn separator_written_twice_changes_no_component() {
    for (once, twice) in [
        ("/", "//"),
        ("foo/bar", "foo//bar"),
        ("/foo/bar", "//foo/bar"),
        ("/foo/bar", "/foo//bar"),
        ("./foo", ".//foo"),
        ("foo/", "foo//"),
    ] {
        assert_eq!(UnixPathBuf::from(twice), UnixPathBuf::from(once), "{once}");
    }
    for (once, twice) in [
        (r"foo\bar", r"foo\\bar"),
        (r"foo/bar", r"foo/\bar"),
        (r"C:\foo", r"C:\\foo"),
        (r"\\server\share\foo", r"\\server\share\\foo"),
        (r"\\?\C:\foo\bar", r"\\?\C:\foo\\bar"),
    ] {
        assert_eq!(WindowsPathBuf::from(twice), WindowsPathBuf::from(once), "{once}");
    }
    assert_ne!(WindowsPathBuf::from(r"\\\server\share"), WindowsPathBuf::from(r"\\server\share"));
}

#[test]
fn strict_encoding_fails_exactly_on_malformed_text() {
    let texts = [r"foo\bar", r"C:\foo", r"\\server\share\foo", r".\foo\..", r"\\?\C:\foo"];
    for text in texts {
        let valid = units(text);
        assert!(WindowsPathBuf::from_units(valid.clone()).to_slash().is_some());
        assert!(UnixPathBuf::from_units(valid.clone()).to_slash().is_some());
        for at in 0..=valid.len() {
            let mut malformed = valid.clone();
            malformed.insert(at, Unit::Malformed(0xD83D));
            let windows = WindowsPathBuf::from_units(malformed.clone());
            assert_eq!(windows.to_slash(), None, "{text} at {at}");
            assert_eq!(
                windows.to_slash_lossy().chars().filter(|c| *c == '\u{FFFD}').count(),
                1,
                "{text} at {at}"
            );
            let unix = UnixPathBuf::from_units(malformed);
            assert_eq!(unix.to_slash(), None);
            assert_eq!(unix.to_slash_lossy().chars().count(), valid.len() + 1);
        }
    }
}

#[test]
fn slash_text_has_no_separator_at_its_end() {
    for native in WINDOWS_PATHS.iter().chain(SPELLED_WITH_SLASH.iter()) {
        let slash = WindowsPathBuf::from(*native).to_slash_lossy().into_owned();
        assert!(slash == "/" || !slash.ends_with('/'), "{native}");
    }
    assert_eq!(WindowsPathBuf::from(r"\").to_slash().unwrap(), "/");
    assert_eq!(WindowsPathBuf::from(r"\\\").to_slash().unwrap(), "/");
}

#[test]
fn slash_at_the_end_of_a_name_or_prefix_stays() {
    assert_eq!(WindowsPathBuf::from(r"\\?\C:\foo/").to_slash().unwrap(), r"\\?\C:/foo/");
    assert_eq!(WindowsPathBuf::from("//./").to_slash().unwrap(), "//./");
}
