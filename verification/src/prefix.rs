//! Prefixes of the Windows convention.
//!
//! A Windows path may open with a prefix that names a volume rather than a
//! directory. Six forms are recognised, each with the text it covers:
//!
//! | form | example | covers |
//! |---|---|---|
//! | verbatim network share | `\\?\UNC\server\share` | up to the end of the share |
//! | verbatim drive | `\\?\C:` | six units |
//! | verbatim | `\\?\name` | up to the end of the name |
//! | device | `\\.\COM1` | up to the end of the name |
//! | network share | `\\server\share` | up to the end of the share |
//! | drive | `C:` | two units |
//!
//! A verbatim prefix opens with exactly `\\?\`; in the other forms `/` may
//! stand for `\`. This module finds how far a prefix reaches. Its text is
//! carried along as it was written; what it names is told in
//! [`crate::name`].
use crate::component::Syntax;
use crate::segment::{
    lemma_segment_len, lemma_segment_stop_is, lemma_segment_stop_same, segment_end, segment_stop,
};
use crate::text::Unit;
use vstd::prelude::*;

verus! {

/// Whether position `i` holds the character `c`.
pub open spec fn at(u: Seq<Unit>, i: int, c: char) -> bool {
    0 <= i < u.len() && u[i] == Unit::Scalar(c)
}

/// Whether position `i` holds `\` or `/`.
pub open spec fn sep_at(u: Seq<Unit>, i: int) -> bool {
    0 <= i < u.len() && Syntax::Windows.separates(u[i])
}

/// Whether `x` is an ASCII letter.
pub open spec fn is_letter(x: Unit) -> bool {
    match x {
        Unit::Scalar(c) => ('a' <= c && c <= 'z') || ('A' <= c && c <= 'Z'),
        Unit::Malformed(_) => false,
    }
}

/// Whether a drive, a letter and a colon, stands at position `i`.
pub open spec fn drive_at(u: Seq<Unit>, i: int) -> bool {
    0 <= i && i + 1 < u.len() && is_letter(u[i]) && u[i + 1] == Unit::Scalar(':')
}

/// Whether the text opens with `\\?\`, written exactly so.
pub open spec fn starts_verbatim(u: Seq<Unit>) -> bool {
    at(u, 0, '\\') && at(u, 1, '\\') && at(u, 2, '?') && at(u, 3, '\\')
}

/// Where a server and share that start at `i` end: after the share, or
/// after the server where no share follows it.
pub open spec fn share_end(u: Seq<Unit>, i: int, syn: Syntax) -> int {
    let a = segment_stop(u, i, syn);
    let b = segment_stop(u, a + 1, syn);
    if b > a + 1 {
        b
    } else {
        a
    }
}

/// The number of units that the prefix of Windows text covers; 0 where the
/// text has no prefix.
pub open spec fn prefix_len(u: Seq<Unit>) -> int {
    if sep_at(u, 0) && sep_at(u, 1) {
        if starts_verbatim(u) {
            if at(u, 4, 'U') && at(u, 5, 'N') && at(u, 6, 'C') && sep_at(u, 7) {
                share_end(u, 8, Syntax::Verbatim)
            } else if drive_at(u, 4) && (u.len() == 6 || sep_at(u, 6)) {
                6
            } else {
                segment_stop(u, 4, Syntax::Verbatim)
            }
        } else if at(u, 2, '.') && sep_at(u, 3) {
            segment_stop(u, 4, Syntax::Windows)
        } else {
            let a = segment_stop(u, 2, Syntax::Windows);
            let b = segment_stop(u, a + 1, Syntax::Windows);
            if a > 2 && b > a + 1 {
                b
            } else {
                0
            }
        }
    } else if drive_at(u, 0) {
        2
    } else {
        0
    }
}

/// Whether a root directory follows the prefix although no separator does:
/// so it is after a device and after a network share.
pub open spec fn has_implicit_root(u: Seq<Unit>) -> bool {
    prefix_len(u) > 0 && sep_at(u, 0) && !starts_verbatim(u)
}

/// Whether the text opens with a verbatim network share that names a
/// server and no share, as `\\?\UNC\server` does.
pub open spec fn is_shareless(u: Seq<Unit>) -> bool {
    &&& starts_verbatim(u)
    &&& at(u, 4, 'U')
    &&& at(u, 5, 'N')
    &&& at(u, 6, 'C')
    &&& sep_at(u, 7)
    &&& prefix_len(u) == segment_stop(u, 8, Syntax::Verbatim)
}

/// Whether two units are the same, or are both separators: `\` and `/` in
/// either order.
pub open spec fn same_but_separator(x: Unit, y: Unit) -> bool {
    x == y || (Syntax::Windows.separates(x) && Syntax::Windows.separates(y))
}

/// Whether two texts are the same but for which of `\` and `/` stands where
/// a separator stands.
pub open spec fn spelled_alike(t: Seq<Unit>, r: Seq<Unit>) -> bool {
    &&& t.len() == r.len()
    &&& forall|k: int| 0 <= k < t.len() ==> same_but_separator(#[trigger] t[k], r[k])
}

/// Whether `w` opens with the prefix of `u`: with the very text if the
/// prefix is verbatim, and else with text that is spelled alike.
pub open spec fn opens_alike(u: Seq<Unit>, w: Seq<Unit>) -> bool {
    let p = prefix_len(u);
    &&& p <= w.len()
    &&& if starts_verbatim(u) {
        w.take(p) == u.take(p)
    } else {
        spelled_alike(u.take(p), w.take(p))
    }
}

/// Whether the text is not verbatim but would be if it were written with
/// `\` alone: it opens with `\\?\` in another spelling, as `//?/C:` does,
/// which is the share `C:` on the server `?`.
pub open spec fn spells_verbatim(u: Seq<Unit>) -> bool {
    !starts_verbatim(u) && sep_at(u, 0) && sep_at(u, 1) && at(u, 2, '?') && sep_at(u, 3)
}

/// Tests whether position `i` holds the character `c`.
pub fn has_char(u: &[Unit], i: usize, c: char) -> (b: bool)
    ensures
        b == at(u@, i as int, c),
{
    i < u.len() && u[i].eq_char(c)
}

/// Tests whether position `i` holds `\` or `/`.
pub fn has_sep(u: &[Unit], i: usize) -> (b: bool)
    ensures
        b == sep_at(u@, i as int),
{
    i < u.len() && Syntax::Windows.is_separator(u[i])
}

/// Tests whether a drive stands at position `i`.
pub fn has_drive(u: &[Unit], i: usize) -> (b: bool)
    requires
        i < usize::MAX,
    ensures
        b == drive_at(u@, i as int),
{
    if i + 1 < u.len() {
        let letter = match u[i] {
            Unit::Scalar(c) => ('a' <= c && c <= 'z') || ('A' <= c && c <= 'Z'),
            Unit::Malformed(_) => false,
        };
        letter && u[i + 1].eq_char(':')
    } else {
        false
    }
}

/// Tests whether the text opens with `\\?\`.
pub fn is_verbatim(u: &[Unit]) -> (b: bool)
    ensures
        b == starts_verbatim(u@),
{
    has_char(u, 0, '\\') && has_char(u, 1, '\\') && has_char(u, 2, '?') && has_char(u, 3, '\\')
}

/// Finds where a server and share that start at `i` end.
fn find_share_end(u: &[Unit], i: usize, syn: Syntax) -> (r: usize)
    requires
        i <= u@.len(),
    ensures
        r == share_end(u@, i as int, syn),
        i <= r <= u@.len(),
{
    let a = segment_end(u, i, syn);
    if a < u.len() {
        let b = segment_end(u, a + 1, syn);
        if b > a + 1 {
            b
        } else {
            a
        }
    } else {
        a
    }
}

/// Measures the prefix of Windows text.
pub fn scan_prefix(u: &[Unit]) -> (p: usize)
    ensures
        p == prefix_len(u@),
        p <= u@.len(),
{
    if has_sep(u, 0) && has_sep(u, 1) {
        if is_verbatim(u) {
            if has_char(u, 4, 'U') && has_char(u, 5, 'N') && has_char(u, 6, 'C') && has_sep(u, 7) {
                find_share_end(u, 8, Syntax::Verbatim)
            } else if has_drive(u, 4) && (u.len() == 6 || has_sep(u, 6)) {
                6
            } else {
                segment_end(u, 4, Syntax::Verbatim)
            }
        } else if has_char(u, 2, '.') && has_sep(u, 3) {
            segment_end(u, 4, Syntax::Windows)
        } else {
            let a = segment_end(u, 2, Syntax::Windows);
            if a > 2 && a < u.len() {
                let b = segment_end(u, a + 1, Syntax::Windows);
                if b > a + 1 {
                    b
                } else {
                    0
                }
            } else {
                0
            }
        }
    } else if has_drive(u, 0) {
        2
    } else {
        0
    }
}

/// A prefix lies within the text, and is at least two units long.
pub proof fn lemma_prefix_len(u: Seq<Unit>)
    ensures
        0 <= prefix_len(u) <= u.len(),
        prefix_len(u) > 0 ==> prefix_len(u) >= 2,
        starts_verbatim(u) ==> prefix_len(u) >= 4,
{
    if sep_at(u, 0) && sep_at(u, 1) {
        if starts_verbatim(u) {
            if at(u, 4, 'U') && at(u, 5, 'N') && at(u, 6, 'C') && sep_at(u, 7) {
                lemma_segment_len(u, 8, Syntax::Verbatim);
                let a = segment_stop(u, 8, Syntax::Verbatim);
                if a < u.len() {
                    lemma_segment_len(u, a + 1, Syntax::Verbatim);
                }
            } else {
                lemma_segment_len(u, 4, Syntax::Verbatim);
            }
        } else if at(u, 2, '.') && sep_at(u, 3) {
            lemma_segment_len(u, 4, Syntax::Windows);
        } else {
            let a = segment_stop(u, 2, Syntax::Windows);
            if a < u.len() {
                lemma_segment_len(u, a + 1, Syntax::Windows);
            }
        }
    }
}

/// A prefix that opens with a separator runs up to a separator, or to the
/// end of the text.
pub proof fn lemma_prefix_stop(u: Seq<Unit>)
    requires
        prefix_len(u) > 0,
        sep_at(u, 0),
    ensures
        u.len() == prefix_len(u) || sep_at(u, prefix_len(u)),
{
    let ver = Syntax::Verbatim;
    let win = Syntax::Windows;
    if starts_verbatim(u) {
        if at(u, 4, 'U') && at(u, 5, 'N') && at(u, 6, 'C') && sep_at(u, 7) {
            lemma_segment_len(u, 8, ver);
            let a = segment_stop(u, 8, ver);
            if a < u.len() {
                lemma_segment_len(u, a + 1, ver);
            }
        } else if drive_at(u, 4) && (u.len() == 6 || sep_at(u, 6)) {
        } else {
            lemma_segment_len(u, 4, ver);
        }
    } else if at(u, 2, '.') && sep_at(u, 3) {
        lemma_segment_len(u, 4, win);
    } else {
        let a = segment_stop(u, 2, win);
        if a < u.len() {
            lemma_segment_len(u, a + 1, win);
        }
    }
}

/// Under the Windows syntax, a segment of one text is a segment of another
/// text that is spelled like it up to where the segment stops, and stops
/// there too.
pub proof fn lemma_segment_stop_alike(u: Seq<Unit>, w: Seq<Unit>, i: int, j: int)
    requires
        0 <= i <= j,
        j <= u.len(),
        j <= w.len(),
        j == segment_stop(u, i, Syntax::Windows),
        forall|k: int| i <= k < j ==> same_but_separator(u[k], #[trigger] w[k]),
        w.len() == j || Syntax::Windows.separates(w[j]),
    ensures
        segment_stop(w, i, Syntax::Windows) == j,
        w.subrange(i, j) == u.subrange(i, j),
{
    lemma_segment_len(u, i, Syntax::Windows);
    assert forall|k: int| i <= k < j implies !Syntax::Windows.separates(#[trigger] w[k]) && w[k]
        == u[k] by {
        assert(same_but_separator(u[k], w[k]));
    }
    lemma_segment_stop_is(w, i, j, Syntax::Windows);
    assert(w.subrange(i, j) =~= u.subrange(i, j));
}

/// The prefix of a text is the prefix of any text that opens with it,
/// spelled alike, and goes on with a `\`, or ends there. After a drive the
/// text may go on with anything; after a verbatim network share without a
/// share it must end.
pub proof fn lemma_prefix_stable(u: Seq<Unit>, w: Seq<Unit>)
    requires
        prefix_len(u) > 0,
        opens_alike(u, w),
        spells_verbatim(u) ==> !starts_verbatim(w),
        sep_at(u, 0) ==> w.len() == prefix_len(u) || w[prefix_len(u)] == Unit::Scalar('\\'),
        u.len() == prefix_len(u) || is_shareless(u) ==> w.len() == prefix_len(u),
    ensures
        prefix_len(w) == prefix_len(u),
        starts_verbatim(w) == starts_verbatim(u),
        sep_at(w, 0) == sep_at(u, 0),
{
    let p = prefix_len(u);
    let ver = Syntax::Verbatim;
    let win = Syntax::Windows;
    lemma_prefix_len(u);
    assert(forall|k: int| 0 <= k < p ==> w[k] == w.take(p)[k] && u[k] == u.take(p)[k]);
    assert(forall|k: int| 0 <= k < p ==> same_but_separator(u[k], #[trigger] w[k])) by {
        assert(forall|k: int| 0 <= k < p ==> w[k] == w.take(p)[k] && u[k] == u.take(p)[k]);
    }
    if sep_at(u, 0) && sep_at(u, 1) {
        if starts_verbatim(u) {
            assert(w.take(p) =~= u.take(p));
            if at(u, 4, 'U') && at(u, 5, 'N') && at(u, 6, 'C') && sep_at(u, 7) {
                lemma_segment_len(u, 8, ver);
                let a = segment_stop(u, 8, ver);
                let b = segment_stop(u, a + 1, ver);
                if b > a + 1 {
                    assert(w.take(a) =~= w.take(p).take(a));
                    assert(u.take(a) =~= u.take(p).take(a));
                    lemma_segment_stop_same(u, w, 8, a, ver);
                    lemma_segment_stop_same(u, w, a + 1, b, ver);
                } else {
                    lemma_segment_stop_same(u, w, 8, a, ver);
                }
            } else if drive_at(u, 4) && (u.len() == 6 || sep_at(u, 6)) {
            } else {
                lemma_segment_len(u, 4, ver);
                lemma_segment_stop_same(u, w, 4, p, ver);
            }
        } else if at(u, 2, '.') && sep_at(u, 3) {
            lemma_segment_stop_alike(u, w, 4, p);
        } else {
            lemma_segment_len(u, 2, win);
            let a = segment_stop(u, 2, win);
            lemma_segment_stop_alike(u, w, 2, a);
            lemma_segment_stop_alike(u, w, a + 1, p);
        }
    }
}

/// Under the Windows syntax, segments stop at the same places in two texts
/// that are spelled alike, and hold the same text.
pub proof fn lemma_segment_alike(u: Seq<Unit>, w: Seq<Unit>, i: int)
    requires
        spelled_alike(u, w),
        0 <= i <= u.len(),
    ensures
        segment_stop(w, i, Syntax::Windows) == segment_stop(u, i, Syntax::Windows),
        w.subrange(i, segment_stop(u, i, Syntax::Windows)) == u.subrange(
            i,
            segment_stop(u, i, Syntax::Windows),
        ),
{
    let j = segment_stop(u, i, Syntax::Windows);
    lemma_segment_len(u, i, Syntax::Windows);
    assert(forall|k: int| 0 <= k < u.len() ==> same_but_separator(#[trigger] u[k], w[k]));
    assert forall|k: int| i <= k < j implies same_but_separator(u[k], #[trigger] w[k]) by {
        assert(same_but_separator(u[k], w[k]));
    }
    if j < u.len() {
        assert(same_but_separator(u[j], w[j]));
    }
    lemma_segment_stop_alike(u, w, i, j);
}

/// Two texts that are spelled alike, neither of them verbatim, have
/// prefixes of the same length.
pub proof fn lemma_prefix_len_alike(u: Seq<Unit>, w: Seq<Unit>)
    requires
        spelled_alike(u, w),
        !starts_verbatim(u),
        !starts_verbatim(w),
    ensures
        prefix_len(w) == prefix_len(u),
        sep_at(w, 0) == sep_at(u, 0),
        sep_at(w, prefix_len(u)) == sep_at(u, prefix_len(u)),
{
    let win = Syntax::Windows;
    assert(forall|k: int| 0 <= k < u.len() ==> same_but_separator(#[trigger] u[k], w[k]));
    lemma_prefix_len(u);
    if u.len() > 0 {
        assert(same_but_separator(u[0], w[0]));
    }
    if u.len() > 1 {
        assert(same_but_separator(u[1], w[1]));
    }
    if u.len() > 2 {
        assert(same_but_separator(u[2], w[2]));
    }
    if u.len() > 3 {
        assert(same_but_separator(u[3], w[3]));
    }
    if prefix_len(u) < u.len() {
        assert(same_but_separator(u[prefix_len(u)], w[prefix_len(u)]));
    }
    if sep_at(u, 0) && sep_at(u, 1) {
        if at(u, 2, '.') && sep_at(u, 3) {
            lemma_segment_alike(u, w, 4);
        } else {
            lemma_segment_alike(u, w, 2);
            lemma_segment_len(u, 2, win);
            let a = segment_stop(u, 2, win);
            if a < u.len() {
                lemma_segment_alike(u, w, a + 1);
            }
        }
    }
}

} // verus!
