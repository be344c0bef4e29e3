use path_slash::{
    str_to_path, str_to_pathbuf, CowExt, CowPath, NativeStr, Unit, UnixCowPath, UnixPathBuf,
    WindowsCowPath, WindowsPathBuf,
};
use std::borrow::Cow;

fn units(s: &str) -> Vec<Unit> {
    s.chars().map(Unit::Scalar).collect()
}

fn assert_borrows_text<const W: bool>(path: &CowPath<'_, W>, text: &str) {
    match path {
        CowPath::Borrowed(p) => match p.text {
            NativeStr::Text(t) => assert!(std::ptr::eq(t, text)),
            NativeStr::Units(_) => panic!("not the text it was given"),
        },
        CowPath::Owned(_) => panic!("copied"),
    }
}

fn assert_borrows_units<const W: bool>(path: &CowPath<'_, W>, raw: &[Unit]) {
    match path {
        CowPath::Borrowed(p) => match p.text {
            NativeStr::Units(u) => assert!(std::ptr::eq(u, raw)),
            NativeStr::Text(_) => panic!("not the units it was given"),
        },
        CowPath::Owned(_) => panic!("copied"),
    }
}

#[test]
fn windows_from_slash_borrows_without_slash() {
    let text = String::from(r"foo\bar.txt");
    let path = WindowsCowPath::from_slash(&text);
    assert!(path.is_borrowed());
    assert_borrows_text(&path, &text);
    assert_eq!(path.into_owned().units, units(r"foo\bar.txt"));
}

#[test]
fn windows_from_slash_copies_with_slash() {
    let path = WindowsCowPath::from_slash("foo/bar/piyo.txt");
    assert!(!path.is_borrowed());
    assert_eq!(path.as_path().to_path_buf().units, units(r"foo\bar\piyo.txt"));
    assert_eq!(path.into_owned(), WindowsPathBuf::from(r"foo\bar\piyo.txt"));
    let path = WindowsCowPath::from_slash("/");
    assert!(!path.is_borrowed());
    assert_eq!(path.into_owned().units, units("\\"));
}

#[test]
fn unix_from_slash_always_borrows() {
    for s in ["", "foo", "foo/bar/piyo.txt", r"foo\bar"] {
        let path = UnixCowPath::from_slash(s);
        assert_borrows_text(&path, s);
        assert_eq!(path.into_owned(), UnixPathBuf::from(s));
    }
}

#[test]
fn unix_from_backslash_borrows_without_backslash() {
    let path = UnixCowPath::from_backslash("foo/bar");
    assert_borrows_text(&path, "foo/bar");
    let path = UnixCowPath::from_backslash(r"foo\bar\piyo.txt");
    assert!(!path.is_borrowed());
    assert_eq!(path.into_owned().units, units("foo/bar/piyo.txt"));
}

#[test]
fn windows_from_backslash_always_borrows() {
    for s in ["", "foo", "foo/bar", r"foo\bar"] {
        let path = WindowsCowPath::from_backslash(s);
        assert_borrows_text(&path, s);
    }
}

#[test]
fn lossy_decoding_borrows_what_it_leaves_unchanged() {
    let path = WindowsCowPath::from_slash_lossy(NativeStr::Text("foo"));
    assert_borrows_text(&path, "foo");
    let raw = units(r"foo\bar");
    let path = WindowsCowPath::from_slash_lossy(NativeStr::Units(&raw));
    assert_borrows_units(&path, &raw);
    let path = UnixCowPath::from_backslash_lossy(NativeStr::Units(&raw));
    assert!(!path.is_borrowed());
    assert_eq!(path.into_owned().units, units("foo/bar"));
    let path = UnixCowPath::from_slash_lossy(NativeStr::Text("foo/bar"));
    assert_borrows_text(&path, "foo/bar");
    let path = WindowsCowPath::from_backslash_lossy(NativeStr::Units(&raw));
    assert_borrows_units(&path, &raw);
}

#[test]
fn lossy_decoding_copies_what_it_changes() {
    let raw = vec![Unit::Scalar('a'), Unit::Malformed(0xD800)];
    let expected = vec![Unit::Scalar('a'), Unit::Scalar('\u{FFFD}')];
    let path = WindowsCowPath::from_slash_lossy(NativeStr::Units(&raw));
    assert!(!path.is_borrowed());
    assert_eq!(path.into_owned().units, expected);
    let path = UnixCowPath::from_slash_lossy(NativeStr::Units(&raw));
    assert!(!path.is_borrowed());
    assert_eq!(path.into_owned().units, expected);
    let path = WindowsCowPath::from_slash_lossy(NativeStr::Text("a/b"));
    assert!(!path.is_borrowed());
    assert_eq!(path.into_owned().units, units(r"a\b"));
}

#[test]
fn str_to_path_rewrites_the_given_separator() {
    let path: WindowsCowPath = str_to_path("a:b:c", ':');
    assert!(!path.is_borrowed());
    assert_eq!(path.into_owned().units, units(r"a\b\c"));
    let path: UnixCowPath = str_to_path("a:b:c", ':');
    assert_eq!(path.into_owned().units, units("a/b/c"));
    let path: UnixCowPath = str_to_path(":x", ':');
    assert_eq!(path.into_owned().units, units("/x"));
    let path: UnixCowPath = str_to_path("xyz:", ':');
    assert_eq!(path.into_owned().units, units("xyz/"));
    let path: UnixCowPath = str_to_path("a/b", ':');
    assert_borrows_text(&path, "a/b");
    let path: UnixCowPath = str_to_path("a/b", '/');
    assert_borrows_text(&path, "a/b");
    let path: WindowsCowPath = str_to_path("", '/');
    assert_borrows_text(&path, "");
}

#[test]
fn str_to_pathbuf_rewrites_the_given_separator() {
    let path: WindowsPathBuf = str_to_pathbuf("a:b:c", ':');
    assert_eq!(path.units, units(r"a\b\c"));
    let path: UnixPathBuf = str_to_pathbuf("a:b/c", ':');
    assert_eq!(path.units, units("a/b/c"));
    let path: UnixPathBuf = str_to_pathbuf("", ':');
    assert_eq!(path.units, units(""));
}

#[test]
fn platform_text_reads_strictly_and_lossily() {
    let raw = vec![Unit::Scalar('a'), Unit::Malformed(1), Unit::Scalar('b')];
    let text = NativeStr::Units(&raw);
    assert_eq!(text.to_str(), None);
    assert_eq!(text.to_string_lossy(), "a\u{FFFD}b");
    assert_eq!(text.to_units(), raw);
    let raw = units("ab");
    let text = NativeStr::Units(&raw);
    assert_eq!(text.to_str(), Some(Cow::Borrowed("ab")));
    assert_eq!(text.to_string_lossy(), "ab");
    let text = NativeStr::Text("ab");
    assert!(matches!(text.to_str(), Some(Cow::Borrowed("ab"))));
    assert!(matches!(text.to_string_lossy(), Cow::Borrowed("ab")));
    assert_eq!(text.to_units(), raw);
}
