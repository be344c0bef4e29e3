//! The conversions themselves, as three traits.
//!
//! [`PathExt`] turns a borrowed path into slash text, [`PathBufExt`] makes
//! an owned path of slash text and turns it back, and [`CowExt`] makes a
//! path of slash text that copies the text only where it has to change.
//! Each trait is implemented once for the Unix convention and once for the
//! Windows convention.
//!
//! Encoding is strict or lossy. The strict form gives `None` where the path
//! is not valid Unicode; the lossy form always succeeds and writes U+FFFD
//! for each malformed unit. Decoding never fails; its lossy form takes
//! platform text, which it first reads lossily.
use crate::decode::{lemma_rewritten_unchanged, rewritten, str_to_path, str_to_pathbuf};
use crate::encode::{encodable, slash_text, walk_lossy, walk_strict};
use crate::laws::lemma_encodable_iff_unicode;
use crate::path::{CowPath, Path, PathBuf};
use crate::text::{is_unicode, lossy, same_units, scalars, NativeStr, Unit};
use std::borrow::Cow;
use vstd::prelude::*;

verus! {

/// Encoding a borrowed native path as slash text.
pub trait PathExt: View<V = Seq<Unit>> {
    /// Whether the path follows the Windows convention.
    spec fn windows() -> bool;

    /// The slash text of this path, or `None` if the path is not valid
    /// Unicode.
    fn to_slash(&self) -> (r: Option<Cow<'_, str>>)
        ensures
            r is Some <==> encodable(self@, Self::windows()),
            r is Some <==> is_unicode(self@),
            r matches Some(t) ==> t@ == slash_text(self@, Self::windows()),
    ;

    /// The slash text of this path, with U+FFFD for each malformed unit.
    fn to_slash_lossy(&self) -> (r: Cow<'_, str>)
        ensures
            r@ == slash_text(self@, Self::windows()),
    ;
}

/// Decoding slash text into an owned native path, and encoding it again.
pub trait PathBufExt: View<V = Seq<Unit>> + Sized {
    /// Whether the path follows the Windows convention.
    spec fn windows() -> bool;

    /// The native path of slash text: each `/` becomes the separator of the
    /// convention.
    fn from_slash(s: &str) -> (r: Self)
        ensures
            r@ == rewritten(s@, '/', Self::windows()),
    ;

    /// The native path of slash text that is given as platform text, which
    /// is first read lossily.
    fn from_slash_lossy(s: NativeStr<'_>) -> (r: Self)
        ensures
            r@ == rewritten(lossy(s@), '/', Self::windows()),
    ;

    /// The native path of text that is separated by `\`: each `\` becomes
    /// the separator of the convention.
    fn from_backslash(s: &str) -> (r: Self)
        ensures
            r@ == rewritten(s@, '\\', Self::windows()),
    ;

    /// The native path of text that is separated by `\` and given as
    /// platform text, which is first read lossily.
    fn from_backslash_lossy(s: NativeStr<'_>) -> (r: Self)
        ensures
            r@ == rewritten(lossy(s@), '\\', Self::windows()),
    ;

    /// The slash text of this path, or `None` if the path is not valid
    /// Unicode.
    fn to_slash(&self) -> (r: Option<Cow<'_, str>>)
        ensures
            r is Some <==> encodable(self@, Self::windows()),
            r is Some <==> is_unicode(self@),
            r matches Some(t) ==> t@ == slash_text(self@, Self::windows()),
    ;

    /// The slash text of this path, with U+FFFD for each malformed unit.
    fn to_slash_lossy(&self) -> (r: Cow<'_, str>)
        ensures
            r@ == slash_text(self@, Self::windows()),
    ;
}

/// Decoding slash text into a native path that borrows the text where no
/// character of it has to change.
pub trait CowExt<'a>: View<V = Seq<Unit>> + Sized {
    /// Whether the path follows the Windows convention.
    spec fn windows() -> bool;

    /// Whether the path is borrowed from the text it was made of.
    spec fn borrowed(&self) -> bool;

    /// The native path of slash text, borrowed exactly if no character had
    /// to change.
    fn from_slash(s: &'a str) -> (r: Self)
        ensures
            r@ == rewritten(s@, '/', Self::windows()),
            r.borrowed() <==> r@ == scalars(s@),
    ;

    /// The native path of slash text that is given as platform text,
    /// borrowed exactly if no unit had to change.
    fn from_slash_lossy(s: NativeStr<'a>) -> (r: Self)
        ensures
            r@ == rewritten(lossy(s@), '/', Self::windows()),
            r.borrowed() <==> r@ == s@,
    ;

    /// The native path of text that is separated by `\`, borrowed exactly
    /// if no character had to change.
    fn from_backslash(s: &'a str) -> (r: Self)
        ensures
            r@ == rewritten(s@, '\\', Self::windows()),
            r.borrowed() <==> r@ == scalars(s@),
    ;

    /// The native path of text that is separated by `\` and given as
    /// platform text, borrowed exactly if no unit had to change.
    fn from_backslash_lossy(s: NativeStr<'a>) -> (r: Self)
        ensures
            r@ == rewritten(lossy(s@), '\\', Self::windows()),
            r.borrowed() <==> r@ == s@,
    ;
}

/// Reads platform text lossily and then as a native path, with each `sep`
/// rewritten to the separator of the convention.
pub fn native_to_pathbuf<const WINDOWS: bool>(s: NativeStr<'_>, sep: char) -> (r: PathBuf<WINDOWS>)
    ensures
        r@ == rewritten(lossy(s@), sep, WINDOWS),
{
    match s.to_string_lossy() {
        Cow::Borrowed(t) => str_to_pathbuf(t, sep),
        Cow::Owned(t) => str_to_pathbuf(t.as_str(), sep),
    }
}

/// Reads platform text lossily and then as a native path, with each `sep`
/// rewritten to the separator of the convention. The result is the text
/// itself, borrowed, exactly if that changed no unit of it.
pub fn native_to_path<'a, const WINDOWS: bool>(s: NativeStr<'a>, sep: char) -> (r: CowPath<
    'a,
    WINDOWS,
>)
    ensures
        r@ == rewritten(lossy(s@), sep, WINDOWS),
        r is Borrowed <==> r@ == s@,
        r is Borrowed ==> r == CowPath::Borrowed(Path::<'a, WINDOWS> { text: s }),
{
    match s.to_string_lossy() {
        Cow::Borrowed(t) => {
            let r = str_to_path(t, sep);
            match r {
                CowPath::Borrowed(_) => CowPath::Borrowed(Path::from_native(s)),
                CowPath::Owned(p) => CowPath::Owned(p),
            }
        },
        Cow::Owned(t) => {
            let p = str_to_pathbuf(t.as_str(), sep);
            let units = s.to_units();
            if same_units(p.units.as_slice(), units.as_slice()) {
                CowPath::Borrowed(Path::from_native(s))
            } else {
                CowPath::Owned(p)
            }
        },
    }
}

impl<'a> PathExt for Path<'a, false> {
    open spec fn windows() -> bool {
        false
    }

    fn to_slash(&self) -> (r: Option<Cow<'_, str>>)
        ensures
            self.text matches NativeStr::Text(s) ==> r == Some(Cow::<'_, str>::Borrowed(s)),
            r matches Some(t) ==> (t is Borrowed <==> self.text is Text),
    {
        self.text.to_str()
    }

    fn to_slash_lossy(&self) -> (r: Cow<'_, str>)
        ensures
            self.text matches NativeStr::Text(s) ==> r == Cow::<'_, str>::Borrowed(s),
            r is Borrowed <==> self.text is Text,
    {
        self.text.to_string_lossy()
    }
}

impl<'a> PathExt for Path<'a, true> {
    open spec fn windows() -> bool {
        true
    }

    fn to_slash(&self) -> (r: Option<Cow<'_, str>>)
        ensures
            r matches Some(t) ==> t is Owned,
    {
        proof {
            lemma_encodable_iff_unicode(self@, true);
        }
        let cs = self.components();
        match walk_strict(&cs) {
            Some(t) => Some(Cow::Owned(t)),
            None => None,
        }
    }

    fn to_slash_lossy(&self) -> (r: Cow<'_, str>)
        ensures
            r is Owned,
    {
        let cs = self.components();
        Cow::Owned(walk_lossy(&cs))
    }
}

impl PathBufExt for PathBuf<false> {
    open spec fn windows() -> bool {
        false
    }

    fn from_slash(s: &str) -> (r: Self) {
        PathBuf::from(s)
    }

    fn from_slash_lossy(s: NativeStr<'_>) -> (r: Self) {
        native_to_pathbuf(s, '/')
    }

    fn from_backslash(s: &str) -> (r: Self) {
        str_to_pathbuf(s, '\\')
    }

    fn from_backslash_lossy(s: NativeStr<'_>) -> (r: Self) {
        native_to_pathbuf(s, '\\')
    }

    fn to_slash(&self) -> (r: Option<Cow<'_, str>>)
        ensures
            r matches Some(t) ==> t is Owned,
    {
        self.as_path().as_native().to_str()
    }

    fn to_slash_lossy(&self) -> (r: Cow<'_, str>)
        ensures
            r is Owned,
    {
        self.as_path().as_native().to_string_lossy()
    }
}

impl PathBufExt for PathBuf<true> {
    open spec fn windows() -> bool {
        true
    }

    fn from_slash(s: &str) -> (r: Self) {
        str_to_pathbuf(s, '/')
    }

    fn from_slash_lossy(s: NativeStr<'_>) -> (r: Self) {
        native_to_pathbuf(s, '/')
    }

    fn from_backslash(s: &str) -> (r: Self) {
        PathBuf::from(s)
    }

    fn from_backslash_lossy(s: NativeStr<'_>) -> (r: Self) {
        native_to_pathbuf(s, '\\')
    }

    fn to_slash(&self) -> (r: Option<Cow<'_, str>>)
        ensures
            r matches Some(t) ==> t is Owned,
    {
        proof {
            lemma_encodable_iff_unicode(self@, true);
        }
        let cs = self.components();
        match walk_strict(&cs) {
            Some(t) => Some(Cow::Owned(t)),
            None => None,
        }
    }

    fn to_slash_lossy(&self) -> (r: Cow<'_, str>)
        ensures
            r is Owned,
    {
        let cs = self.components();
        Cow::Owned(walk_lossy(&cs))
    }
}

impl<'a> CowExt<'a> for CowPath<'a, false> {
    open spec fn windows() -> bool {
        false
    }

    open spec fn borrowed(&self) -> bool {
        self is Borrowed
    }

    fn from_slash(s: &'a str) -> (r: Self)
        ensures
            r == CowPath::Borrowed(Path::<'a, false> { text: NativeStr::Text(s) }),
    {
        CowPath::Borrowed(Path::new(s))
    }

    fn from_slash_lossy(s: NativeStr<'a>) -> (r: Self)
        ensures
            r is Borrowed ==> r == CowPath::Borrowed(Path::<'a, false> { text: s }),
    {
        native_to_path(s, '/')
    }

    fn from_backslash(s: &'a str) -> (r: Self)
        ensures
            r is Borrowed ==> r == CowPath::Borrowed(
                Path::<'a, false> { text: NativeStr::Text(s) },
            ),
    {
        proof {
            lemma_rewritten_unchanged(s@, '\\', false);
        }
        str_to_path(s, '\\')
    }

    fn from_backslash_lossy(s: NativeStr<'a>) -> (r: Self)
        ensures
            r is Borrowed ==> r == CowPath::Borrowed(Path::<'a, false> { text: s }),
    {
        native_to_path(s, '\\')
    }
}

impl<'a> CowExt<'a> for CowPath<'a, true> {
    open spec fn windows() -> bool {
        true
    }

    open spec fn borrowed(&self) -> bool {
        self is Borrowed
    }

    fn from_slash(s: &'a str) -> (r: Self)
        ensures
            r is Borrowed ==> r == CowPath::Borrowed(Path::<'a, true> { text: NativeStr::Text(s) }),
    {
        proof {
            lemma_rewritten_unchanged(s@, '/', true);
        }
        str_to_path(s, '/')
    }

    fn from_slash_lossy(s: NativeStr<'a>) -> (r: Self)
        ensures
            r is Borrowed ==> r == CowPath::Borrowed(Path::<'a, true> { text: s }),
    {
        native_to_path(s, '/')
    }

    fn from_backslash(s: &'a str) -> (r: Self)
        ensures
            r == CowPath::Borrowed(Path::<'a, true> { text: NativeStr::Text(s) }),
    {
        CowPath::Borrowed(Path::new(s))
    }

    fn from_backslash_lossy(s: NativeStr<'a>) -> (r: Self)
        ensures
            r is Borrowed ==> r == CowPath::Borrowed(Path::<'a, true> { text: s }),
    {
        native_to_path(s, '\\')
    }
}

} // verus!
