use path_slash::{
    Component, NativeStr, PathBufExt, PathExt, Unit, UnixPath, UnixPathBuf, WindowsPath,
    WindowsPathBuf, REPLACEMENT_CHARACTER,
};
use std::borrow::Cow;

fn units(s: &str) -> Vec<Unit> {
    s.chars().map(Unit::Scalar).collect()
}

fn normal(s: &str) -> Component {
    Component::Normal(units(s))
}

#[test]
fn unix_round_trip_gives_the_text_back() {
    for s in ["", "/", "foo", "/foo", "foo/bar", "./foo", "foo/../bar", "a/b/c/d.txt", "/usr/lib"] {
        let path = UnixPathBuf::from_slash(s);
        assert_eq!(path.to_slash(), Some(Cow::Borrowed(s)));
        assert_eq!(path.to_slash_lossy(), s);
    }
}

#[test]
fn unix_round_trip_keeps_redundant_separators() {
    for s in ["foo//bar", "foo/", "//", "a/./b"] {
        assert_eq!(UnixPathBuf::from_slash(s).to_slash(), Some(Cow::Borrowed(s)));
    }
}

#[test]
fn unix_encoding_borrows_text() {
    let text = String::from("foo/bar");
    let path = UnixPath::new(&text);
    match path.to_slash() {
        Some(Cow::Borrowed(t)) => assert!(std::ptr::eq(t, text.as_str())),
        other => panic!("{:?}", other),
    }
    match path.to_slash_lossy() {
        Cow::Borrowed(t) => assert!(std::ptr::eq(t, text.as_str())),
        other => panic!("{:?}", other),
    }
}

#[test]
fn root_is_root() {
    assert_eq!(UnixPathBuf::from_slash("/").components(), vec![Component::RootDir]);
    assert_eq!(WindowsPathBuf::from_slash("/").components(), vec![Component::RootDir]);
    assert_eq!(WindowsPathBuf::from_slash("/").units, units("\\"));
    assert_eq!(UnixPathBuf::from("/").to_slash().unwrap(), "/");
    assert_eq!(WindowsPathBuf::from("\\").to_slash().unwrap(), "/");
    assert_eq!(WindowsPathBuf::from("\\").to_slash_lossy(), "/");
}

#[test]
fn empty_path_is_empty() {
    assert_eq!(UnixPathBuf::from_slash("").components(), vec![]);
    assert_eq!(WindowsPathBuf::from_slash("").components(), vec![]);
    assert_eq!(WindowsPathBuf::new().to_slash().unwrap(), "");
    assert_eq!(UnixPathBuf::new().to_slash_lossy(), "");
}

#[test]
fn empty_segments_collapse() {
    assert_eq!(UnixPathBuf::from_slash("foo//bar"), UnixPathBuf::from_slash("foo/bar"));
    assert_eq!(WindowsPathBuf::from_slash("foo//bar"), WindowsPathBuf::from_slash("foo/bar"));
    assert_eq!(
        WindowsPathBuf::from_slash("foo//bar").components(),
        vec![normal("foo"), normal("bar")]
    );
    assert_eq!(WindowsPathBuf::from_slash("foo//bar").to_slash().unwrap(), "foo/bar");
    assert_eq!(WindowsPathBuf::from_slash("foo/bar").to_slash().unwrap(), "foo/bar");
    assert_eq!(WindowsPathBuf::from_slash("foo///bar//").to_slash().unwrap(), "foo/bar");
}

#[test]
fn trailing_separator_is_insignificant() {
    assert_eq!(UnixPathBuf::from_slash("foo/"), UnixPathBuf::from_slash("foo"));
    assert_eq!(WindowsPathBuf::from_slash("foo/"), WindowsPathBuf::from_slash("foo"));
    assert_eq!(WindowsPathBuf::from_slash("foo/").to_slash().unwrap(), "foo");
    assert_eq!(WindowsPathBuf::from_slash("foo").to_slash().unwrap(), "foo");
    assert_eq!(WindowsPathBuf::from_slash("foo/").to_slash_lossy(), "foo");
    assert_eq!(WindowsPathBuf::from(r"foo\bar\").to_slash().unwrap(), "foo/bar");
    assert_eq!(UnixPathBuf::from_slash("foo").to_slash().unwrap(), "foo");
}

#[test]
fn dot_segments_are_kept() {
    let expected = vec![normal("foo"), Component::ParentDir, normal("bar")];
    assert_eq!(UnixPathBuf::from_slash("foo/../bar").components(), expected);
    assert_eq!(WindowsPathBuf::from_slash("foo/../bar").components(), expected);
    assert_eq!(UnixPathBuf::from_slash("foo/../bar").to_slash().unwrap(), "foo/../bar");
    assert_eq!(WindowsPathBuf::from_slash("foo/../bar").to_slash().unwrap(), "foo/../bar");
    assert_ne!(WindowsPathBuf::from_slash("foo/../bar"), WindowsPathBuf::from_slash("bar"));
    assert_eq!(WindowsPathBuf::from_slash("../..").to_slash().unwrap(), "../..");
}

#[test]
fn leading_current_directory_is_kept() {
    assert_eq!(
        WindowsPathBuf::from_slash("./foo").components(),
        vec![Component::CurDir, normal("foo")]
    );
    assert_eq!(UnixPathBuf::from_slash(".").components(), vec![Component::CurDir]);
    assert_eq!(WindowsPathBuf::from_slash(".").to_slash().unwrap(), ".");
    assert_eq!(WindowsPathBuf::from_slash("./foo").to_slash().unwrap(), "./foo");
}

#[test]
fn inner_current_directory_is_dropped() {
    assert_eq!(
        UnixPathBuf::from_slash("foo/./bar").components(),
        vec![normal("foo"), normal("bar")]
    );
    assert_eq!(WindowsPathBuf::from_slash("foo/./bar").to_slash().unwrap(), "foo/bar");
    assert_eq!(WindowsPathBuf::from_slash("foo/.").to_slash().unwrap(), "foo");
    assert_eq!(UnixPathBuf::from_slash(".foo").components(), vec![normal(".foo")]);
    assert_eq!(UnixPathBuf::from_slash("...").components(), vec![normal("...")]);
}

#[test]
fn backslash_separates_under_windows_only() {
    assert_eq!(
        WindowsPathBuf::from(r"foo\bar").components(),
        vec![normal("foo"), normal("bar")]
    );
    assert_eq!(UnixPathBuf::from(r"foo\bar").components(), vec![normal(r"foo\bar")]);
    assert_eq!(WindowsPathBuf::from(r"foo\bar/baz").to_slash().unwrap(), "foo/bar/baz");
    assert_eq!(UnixPathBuf::from(r"foo\bar").to_slash().unwrap(), r"foo\bar");
}

#[test]
fn lossy_substitutes_each_malformed_unit() {
    let raw = vec![
        Unit::Scalar('f'),
        Unit::Malformed(0xD800),
        Unit::Scalar('o'),
        Unit::Scalar('\\'),
        Unit::Malformed(0xDC00),
        Unit::Malformed(0xDC01),
    ];
    let path = WindowsPathBuf::from_units(raw.clone());
    assert_eq!(path.to_slash(), None);
    assert_eq!(path.to_slash_lossy(), "f\u{FFFD}o/\u{FFFD}\u{FFFD}");
    assert_eq!(path.as_path().to_slash(), None);
    assert_eq!(path.as_path().to_slash_lossy(), "f\u{FFFD}o/\u{FFFD}\u{FFFD}");

    let raw = vec![Unit::Scalar('f'), Unit::Malformed(0xFF), Unit::Scalar('/'), Unit::Scalar('o')];
    let path = UnixPathBuf::from_units(raw.clone());
    assert_eq!(path.to_slash(), None);
    assert_eq!(path.to_slash_lossy(), "f\u{FFFD}/o");
    let path = UnixPath::from_native(NativeStr::Units(&raw));
    assert_eq!(path.to_slash(), None);
    assert_eq!(path.to_slash_lossy(), "f\u{FFFD}/o");
    assert_eq!(REPLACEMENT_CHARACTER, '\u{FFFD}');
}

#[test]
fn malformed_prefix_fails_strictly() {
    let mut raw = units(r"\\server\sh");
    raw.push(Unit::Malformed(0xD801));
    raw.extend(units(r"re\foo"));
    let path = WindowsPathBuf::from_units(raw);
    assert_eq!(path.to_slash(), None);
    assert_eq!(path.to_slash_lossy(), "\\\\server\\sh\u{FFFD}re/foo");
}

#[test]
fn replacement_character_itself_is_valid() {
    let path = WindowsPathBuf::from("a\u{FFFD}\\b");
    assert_eq!(path.to_slash().unwrap(), "a\u{FFFD}/b");
    assert_eq!(path.to_slash_lossy(), "a\u{FFFD}/b");
}

#[test]
fn lossy_decoding_reads_lossily_first() {
    let raw = vec![Unit::Scalar('a'), Unit::Scalar('/'), Unit::Malformed(7), Unit::Scalar('\\')];
    let expected = vec![
        Unit::Scalar('a'),
        Unit::Scalar('\\'),
        Unit::Scalar('\u{FFFD}'),
        Unit::Scalar('\\'),
    ];
    assert_eq!(WindowsPathBuf::from_slash_lossy(NativeStr::Units(&raw)).units, expected);
    let expected = vec![
        Unit::Scalar('a'),
        Unit::Scalar('/'),
        Unit::Scalar('\u{FFFD}'),
        Unit::Scalar('\\'),
    ];
    assert_eq!(UnixPathBuf::from_slash_lossy(NativeStr::Units(&raw)).units, expected);
    assert_eq!(WindowsPathBuf::from_backslash_lossy(NativeStr::Units(&raw)).units, expected);
    let expected = vec![
        Unit::Scalar('a'),
        Unit::Scalar('/'),
        Unit::Scalar('\u{FFFD}'),
        Unit::Scalar('/'),
    ];
    assert_eq!(UnixPathBuf::from_backslash_lossy(NativeStr::Units(&raw)).units, expected);
}

#[test]
fn backslash_decoding_mirrors_slash_decoding() {
    assert_eq!(UnixPathBuf::from_backslash(r"foo\bar"), UnixPathBuf::from_slash("foo/bar"));
    assert_eq!(UnixPathBuf::from_backslash(r"foo\bar").units, units("foo/bar"));
    assert_eq!(UnixPathBuf::from_backslash(r"\foo\\bar\").units, units("/foo//bar/"));
    assert_eq!(UnixPathBuf::from_backslash("foo/bar").units, units("foo/bar"));
    assert_eq!(WindowsPathBuf::from_backslash(r"foo\bar").units, units(r"foo\bar"));
    assert_eq!(WindowsPathBuf::from_backslash("foo/bar").units, units("foo/bar"));
}

#[test]
fn decoding_rewrites_every_separator() {
    assert_eq!(WindowsPathBuf::from_slash("/a//b/").units, units(r"\a\\b\"));
    assert_eq!(WindowsPathBuf::from_slash(r"a\b/c").units, units(r"a\b\c"));
    assert_eq!(UnixPathBuf::from_slash(r"a\b/c").units, units(r"a\b/c"));
    assert_eq!(WindowsPathBuf::from_slash("héllo/wörld").units, units("héllo\\wörld"));
}

#[test]
fn text_and_units_spell_the_same_path() {
    let raw = units(r"C:\foo\bar");
    let from_units = WindowsPath::from_native(NativeStr::Units(&raw));
    let from_text = WindowsPath::new(r"C:\foo\bar");
    assert_eq!(from_units, from_text);
    assert_eq!(from_units.components(), from_text.components());
    assert_eq!(from_units.to_slash(), from_text.to_slash());
    assert_eq!(from_text.to_path_buf().units, raw);
    assert_eq!(from_text.to_path_buf().as_path(), from_units);
}

#[test]
fn text_beyond_ascii_converts_both_ways() {
    let wide: [u32; 9] = [0x3042, 0x005c, 0x3044, 0x005c, 0x3046, 0x005c, 0x3048, 0x005c, 0x304a];
    let raw: Vec<Unit> = wide.iter().map(|u| Unit::Scalar(char::from_u32(*u).unwrap())).collect();
    let slash = "\u{3042}/\u{3044}/\u{3046}/\u{3048}/\u{304a}";
    let path = WindowsPathBuf::from_units(raw.clone());
    assert_eq!(path.to_slash().unwrap(), slash);
    assert_eq!(path.to_slash_lossy(), slash);
    assert_eq!(WindowsPathBuf::from_slash(slash).units, raw);
    assert_eq!(WindowsPathBuf::from_slash_lossy(NativeStr::Text(slash)).units, raw);
    assert_eq!(WindowsPathBuf::from_slash(slash), path);
    let mut longer = raw.clone();
    longer.push(Unit::Scalar('\\'));
    assert_eq!(WindowsPathBuf::from_units(longer).to_slash().unwrap(), slash);
}
