//! What a path names: the ground on which two paths are equal.
//!
//! Two paths are equal when their components name the same things. A root,
//! a dot segment or a name is what it is. A prefix is the volume it names:
//! a network share is its server and share, a device is its name, a drive
//! is its letter, whatever the case of the letter and whichever of `\` and
//! `/` the prefix was written with. So `//server/share` and
//! `\\server\share` are one prefix, and so are `c:` and `C:`.
use crate::component::{views, Component, ComponentView, Syntax};
use crate::parse::{components, parse};
use crate::prefix::{
    at, drive_at, has_char, has_drive, has_sep, is_verbatim, lemma_prefix_len,
    lemma_prefix_stable, lemma_segment_stop_alike, opens_alike, prefix_len, same_but_separator,
    scan_prefix, sep_at, spells_verbatim, starts_verbatim,
};
use crate::segment::{lemma_segment_len, segment_end, segment_stop};
use crate::text::{same_units, Unit};
use vstd::prelude::*;

verus! {

/// What a prefix names, as a mathematical value.
pub enum PrefixView {
    /// A verbatim prefix `\\?\name`: the name.
    Verbatim(Seq<Unit>),
    /// A verbatim network share `\\?\UNC\server\share`: server and share.
    VerbatimUnc(Seq<Unit>, Seq<Unit>),
    /// A verbatim drive `\\?\C:`: the letter, in upper case.
    VerbatimDisk(char),
    /// A device `\\.\name`: the name.
    DeviceNs(Seq<Unit>),
    /// A network share `\\server\share`: server and share.
    Unc(Seq<Unit>, Seq<Unit>),
    /// A drive `C:`: the letter, in upper case.
    Disk(char),
    /// Text that is no prefix names nothing but itself.
    Other(Seq<Unit>),
}

/// What a prefix names.
#[derive(PartialEq, Eq, Debug)]
pub enum Prefix {
    /// A verbatim prefix `\\?\name`: the name.
    Verbatim(Vec<Unit>),
    /// A verbatim network share `\\?\UNC\server\share`: server and share.
    VerbatimUnc(Vec<Unit>, Vec<Unit>),
    /// A verbatim drive `\\?\C:`: the letter, in upper case.
    VerbatimDisk(char),
    /// A device `\\.\name`: the name.
    DeviceNs(Vec<Unit>),
    /// A network share `\\server\share`: server and share.
    Unc(Vec<Unit>, Vec<Unit>),
    /// A drive `C:`: the letter, in upper case.
    Disk(char),
    /// Text that is no prefix names nothing but itself.
    Other(Vec<Unit>),
}

impl View for Prefix {
    type V = PrefixView;

    open spec fn view(&self) -> PrefixView {
        match self {
            Prefix::Verbatim(n) => PrefixView::Verbatim(n@),
            Prefix::VerbatimUnc(a, b) => PrefixView::VerbatimUnc(a@, b@),
            Prefix::VerbatimDisk(c) => PrefixView::VerbatimDisk(*c),
            Prefix::DeviceNs(n) => PrefixView::DeviceNs(n@),
            Prefix::Unc(a, b) => PrefixView::Unc(a@, b@),
            Prefix::Disk(c) => PrefixView::Disk(*c),
            Prefix::Other(t) => PrefixView::Other(t@),
        }
    }
}

/// The letter `c` in upper case, if it is an ASCII letter in lower case;
/// else `c`.
pub open spec fn upper(c: char) -> char {
    if 'a' <= c && c <= 'z' {
        ((c as u32) - 32) as char
    } else {
        c
    }
}

/// The drive letter that stands at position `i`, in upper case.
pub open spec fn drive_letter(t: Seq<Unit>, i: int) -> char {
    match t[i] {
        Unit::Scalar(c) => upper(c),
        Unit::Malformed(_) => ' ',
    }
}

/// What the prefix with the text `t` names.
///
/// Server, share and name are the segments of the text, so they hold no
/// separator, and the name is the same for every spelling of the
/// separators between them.
pub open spec fn prefix_name(t: Seq<Unit>) -> PrefixView {
    let ver = Syntax::Verbatim;
    let win = Syntax::Windows;
    if prefix_len(t) <= 0 {
        PrefixView::Other(t)
    } else if starts_verbatim(t) {
        if at(t, 4, 'U') && at(t, 5, 'N') && at(t, 6, 'C') && sep_at(t, 7) {
            let a = segment_stop(t, 8, ver);
            let b = segment_stop(t, a + 1, ver);
            PrefixView::VerbatimUnc(
                t.subrange(8, a),
                if a < t.len() {
                    t.subrange(a + 1, b)
                } else {
                    Seq::empty()
                },
            )
        } else if drive_at(t, 4) && (t.len() == 6 || sep_at(t, 6)) {
            PrefixView::VerbatimDisk(drive_letter(t, 4))
        } else {
            PrefixView::Verbatim(t.subrange(4, segment_stop(t, 4, ver)))
        }
    } else if sep_at(t, 0) {
        if at(t, 2, '.') && sep_at(t, 3) {
            PrefixView::DeviceNs(t.subrange(4, segment_stop(t, 4, win)))
        } else {
            let a = segment_stop(t, 2, win);
            let b = segment_stop(t, a + 1, win);
            PrefixView::Unc(t.subrange(2, a), t.subrange(a + 1, b))
        }
    } else {
        PrefixView::Disk(drive_letter(t, 0))
    }
}

/// What a component names, as a mathematical value: a prefix what it
/// names, every other component itself.
pub enum ComponentName {
    /// A prefix, by what it names.
    Prefix(PrefixView),
    /// The root directory.
    RootDir,
    /// The current directory.
    CurDir,
    /// The parent directory.
    ParentDir,
    /// The name of a file or directory.
    Normal(Seq<Unit>),
}

/// What a component names.
pub open spec fn named(c: ComponentView) -> ComponentName {
    match c {
        ComponentView::Prefix(t) => ComponentName::Prefix(prefix_name(t)),
        ComponentView::RootDir => ComponentName::RootDir,
        ComponentView::CurDir => ComponentName::CurDir,
        ComponentView::ParentDir => ComponentName::ParentDir,
        ComponentView::Normal(t) => ComponentName::Normal(t),
    }
}

/// What the components of a list name, one by one.
pub open spec fn names(cs: Seq<ComponentView>) -> Seq<ComponentName> {
    cs.map_values(|c: ComponentView| named(c))
}

/// What the text `u` names as a path of the convention that `windows`
/// names. Two paths are equal exactly if they name the same.
pub open spec fn path_names(u: Seq<Unit>, windows: bool) -> Seq<ComponentName> {
    names(components(u, windows))
}

/// The letter `c` in upper case.
pub fn to_upper(c: char) -> (r: char)
    ensures
        r == upper(c),
{
    if 'a' <= c && c <= 'z' {
        ((c as u8) - 32) as char
    } else {
        c
    }
}

/// The drive letter at position `i`, in upper case.
fn letter_at(t: &[Unit], i: usize) -> (r: char)
    requires
        i < t@.len(),
    ensures
        r == drive_letter(t@, i as int),
{
    match t[i] {
        Unit::Scalar(c) => to_upper(c),
        Unit::Malformed(_) => ' ',
    }
}

/// The units of `t` from `i` up to `j`, copied out.
fn part(t: &[Unit], i: usize, j: usize) -> (r: Vec<Unit>)
    requires
        i <= j <= t@.len(),
    ensures
        r@ == t@.subrange(i as int, j as int),
{
    vstd::slice::slice_to_vec(vstd::slice::slice_subrange(t, i, j))
}

/// Reads what the prefix with the text `t` names.
pub fn name_of(t: &[Unit]) -> (r: Prefix)
    ensures
        r@ == prefix_name(t@),
{
    let n: usize = t.len();
    let ver = Syntax::Verbatim;
    let win = Syntax::Windows;
    proof {
        lemma_prefix_len(t@);
    }
    if scan_prefix(t) == 0 {
        assert(t@.subrange(0, n as int) =~= t@);
        Prefix::Other(part(t, 0, n))
    } else if is_verbatim(t) {
        if has_char(t, 4, 'U') && has_char(t, 5, 'N') && has_char(t, 6, 'C') && has_sep(t, 7) {
            let a = segment_end(t, 8, ver);
            if a < n {
                let b = segment_end(t, a + 1, ver);
                Prefix::VerbatimUnc(part(t, 8, a), part(t, a + 1, b))
            } else {
                Prefix::VerbatimUnc(part(t, 8, a), Vec::new())
            }
        } else if has_drive(t, 4) && (n == 6 || has_sep(t, 6)) {
            Prefix::VerbatimDisk(letter_at(t, 4))
        } else {
            let a = segment_end(t, 4, ver);
            Prefix::Verbatim(part(t, 4, a))
        }
    } else if has_sep(t, 0) {
        if has_char(t, 2, '.') && has_sep(t, 3) {
            let a = segment_end(t, 4, win);
            Prefix::DeviceNs(part(t, 4, a))
        } else {
            let a = segment_end(t, 2, win);
            let b = segment_end(t, a + 1, win);
            Prefix::Unc(part(t, 2, a), part(t, a + 1, b))
        }
    } else {
        Prefix::Disk(letter_at(t, 0))
    }
}

impl Prefix {
    /// Tests whether two prefixes name the same.
    pub fn same(&self, other: &Prefix) -> (r: bool)
        ensures
            r == (self@ == other@),
    {
        match (self, other) {
            (Prefix::Verbatim(a), Prefix::Verbatim(b)) => same_units(a.as_slice(), b.as_slice()),
            (Prefix::VerbatimUnc(a, c), Prefix::VerbatimUnc(b, d)) => {
                same_units(a.as_slice(), b.as_slice()) && same_units(c.as_slice(), d.as_slice())
            },
            (Prefix::VerbatimDisk(a), Prefix::VerbatimDisk(b)) => *a == *b,
            (Prefix::DeviceNs(a), Prefix::DeviceNs(b)) => same_units(a.as_slice(), b.as_slice()),
            (Prefix::Unc(a, c), Prefix::Unc(b, d)) => {
                same_units(a.as_slice(), b.as_slice()) && same_units(c.as_slice(), d.as_slice())
            },
            (Prefix::Disk(a), Prefix::Disk(b)) => *a == *b,
            (Prefix::Other(a), Prefix::Other(b)) => same_units(a.as_slice(), b.as_slice()),
            _ => false,
        }
    }
}

/// Tests whether two components name the same: two prefixes the same
/// volume, two names the same name, and so on.
pub fn same_component(a: &Component, b: &Component) -> (r: bool)
    ensures
        r == (named(a@) == named(b@)),
{
    match (a, b) {
        (Component::Prefix(x), Component::Prefix(y)) => {
            name_of(x.as_slice()).same(&name_of(y.as_slice()))
        },
        (Component::RootDir, Component::RootDir) => true,
        (Component::CurDir, Component::CurDir) => true,
        (Component::ParentDir, Component::ParentDir) => true,
        (Component::Normal(x), Component::Normal(y)) => same_units(x.as_slice(), y.as_slice()),
        _ => false,
    }
}

/// Tests whether two lists of components name the same, one by one.
pub fn same_components(a: &Vec<Component>, b: &Vec<Component>) -> (r: bool)
    ensures
        r == (names(views(a@)) == names(views(b@))),
{
    let n: usize = a.len();
    if n != b.len() {
        assert(names(views(a@)).len() != names(views(b@)).len());
        return false;
    }
    let mut i: usize = 0;
    while i < n
        invariant
            n == a@.len(),
            n == b@.len(),
            i <= n,
            forall|k: int| 0 <= k < i ==> named(a@[k]@) == named(b@[k]@),
        decreases n - i,
    {
        if !same_component(&a[i], &b[i]) {
            assert(names(views(a@))[i as int] != names(views(b@))[i as int]);
            return false;
        }
        i = i + 1;
    }
    assert(names(views(a@)) =~= names(views(b@)));
    true
}

/// Tests whether two texts are the same path under the convention that
/// `windows` names.
pub fn same_path(a: &[Unit], b: &[Unit], windows: bool) -> (r: bool)
    ensures
        r == (path_names(a@, windows) == path_names(b@, windows)),
{
    let ca = parse(a, windows);
    let cb = parse(b, windows);
    same_components(&ca, &cb)
}

/// A prefix names the same in every spelling of its separators: if `w`
/// opens with the prefix of `u`, spelled alike, the two prefixes name the
/// same.
pub proof fn lemma_prefix_name_alike(u: Seq<Unit>, w: Seq<Unit>)
    requires
        prefix_len(u) > 0,
        prefix_len(w) == prefix_len(u),
        opens_alike(u, w),
        spells_verbatim(u) ==> !starts_verbatim(w),
    ensures
        prefix_name(w.take(prefix_len(u))) == prefix_name(u.take(prefix_len(u))),
{
    let p = prefix_len(u);
    let t = u.take(p);
    let r = w.take(p);
    let win = Syntax::Windows;
    lemma_prefix_len(u);
    assert(t.take(p) =~= t);
    assert(r.take(p) =~= r);
    assert(opens_alike(u, t));
    assert(opens_alike(u, r));
    lemma_prefix_stable(u, t);
    lemma_prefix_stable(u, r);
    if starts_verbatim(u) {
        assert(r =~= t);
    } else if sep_at(t, 0) {
        assert(same_but_separator(t[2], r[2]));
        assert(same_but_separator(t[3], r[3]));
        if at(t, 2, '.') && sep_at(t, 3) {
            lemma_segment_stop_alike(t, r, 4, p);
        } else {
            lemma_segment_len(t, 2, win);
            let a = segment_stop(t, 2, win);
            lemma_segment_stop_alike(t, r, 2, a);
            lemma_segment_stop_alike(t, r, a + 1, p);
        }
    } else {
        assert(same_but_separator(t[0], r[0]));
    }
}

} // verus!
