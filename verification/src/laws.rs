//! What holds of the conversions, whatever the input.
use crate::component::{ComponentView, Syntax};
use crate::decode::rewritten;
use crate::encode::{
    all_unicode, component_is_unicode, encodable, joined, lemma_joined_concat, lemma_joined_one,
    piece, slash_text, walked,
};
use crate::name::{
    drive_letter, lemma_prefix_name_alike, named, names, path_names, prefix_name,
};
use crate::parse::{components, windows_syntax};
use crate::prefix::{
    drive_at, lemma_prefix_len, lemma_prefix_len_alike, lemma_segment_alike, opens_alike,
    prefix_len,
    same_but_separator, sep_at, spelled_alike, starts_verbatim,
};
use crate::segment::{
    body, is_dot_dot, is_segment, lemma_body_agree, lemma_body_push, lemma_body_segments,
    lemma_body_suffix, lemma_segment_len, rooted_body, segment_component, segment_stop,
    segment_text,
};
use crate::text::{is_unicode, lossy, Unit, REPLACEMENT_CHARACTER};
use vstd::prelude::*;

verus! {

/// Under the Unix convention, decoding slash text and encoding the path
/// gives the text back: the path is valid Unicode, and its slash text is
/// the text it was made of.
pub proof fn lemma_unix_round_trip(s: Seq<char>)
    ensures
        encodable(rewritten(s, '/', false), false),
        slash_text(rewritten(s, '/', false), false) == s,
{
}

/// The lossy reading has exactly one character for each unit: the unit's
/// own where it is a scalar value, and U+FFFD where it is malformed.
pub proof fn lemma_lossy_substitution(u: Seq<Unit>)
    ensures
        lossy(u).len() == u.len(),
        forall|i: int|
            0 <= i < u.len() ==> #[trigger] lossy(u)[i] == (match u[i] {
                Unit::Scalar(c) => c,
                Unit::Malformed(_) => REPLACEMENT_CHARACTER,
            }),
{
}

/// The text `s` with `/` in the place of each `\`.
pub open spec fn slashed(s: Seq<char>) -> Seq<char> {
    s.map_values(|c: char| if c == '\\' { '/' } else { c })
}

/// Under the Unix convention, decoding text that is separated by `\` gives
/// the path that decoding the same text with `/` for each `\` gives.
pub proof fn lemma_backslash_symmetry(s: Seq<char>)
    ensures
        rewritten(s, '\\', false) == rewritten(slashed(s), '/', false),
{
}

/// Text is valid Unicode exactly if the pieces on either side of a position
/// are.
proof fn lemma_unicode_split(u: Seq<Unit>, i: int, j: int, k: int)
    requires
        0 <= i <= j <= k <= u.len(),
    ensures
        is_unicode(u.subrange(i, k)) <==> is_unicode(u.subrange(i, j)) && is_unicode(
            u.subrange(j, k),
        ),
{
    let a = u.subrange(i, j);
    let b = u.subrange(j, k);
    let c = u.subrange(i, k);
    if is_unicode(c) {
        assert forall|x: int| 0 <= x < b.len() implies b[x] is Scalar by {
            assert(b[x] == c[x + (j - i)]);
        }
    }
    if is_unicode(a) && is_unicode(b) {
        assert forall|x: int| 0 <= x < c.len() implies c[x] is Scalar by {
            if x >= j - i {
                assert(c[x] == b[x - (j - i)]);
            }
        }
    }
}

/// A list of components is valid Unicode exactly if its first component and
/// the rest are.
proof fn lemma_all_unicode_cons(c: ComponentView, rest: Seq<ComponentView>)
    ensures
        all_unicode(seq![c] + rest) <==> component_is_unicode(c) && all_unicode(rest),
{
    let cs = seq![c] + rest;
    if all_unicode(cs) {
        assert(cs[0] == c);
        assert forall|x: int| 0 <= x < rest.len() implies component_is_unicode(
            #[trigger] rest[x],
        ) by {
            assert(rest[x] == cs[x + 1]);
        }
    }
}

/// The components of a body are valid Unicode exactly if its text is.
proof fn lemma_body_unicode(u: Seq<Unit>, i: int, syn: Syntax)
    requires
        0 <= i <= u.len(),
    ensures
        all_unicode(body(u, i, syn)) <==> is_unicode(u.subrange(i, u.len() as int)),
    decreases u.len() - i,
{
    let n = u.len() as int;
    if i < n {
        lemma_segment_len(u, i, syn);
        let j = segment_stop(u, i, syn);
        let seg = u.subrange(i, j);
        let rest = if j < n {
            body(u, j + 1, syn)
        } else {
            Seq::empty()
        };
        lemma_unicode_split(u, i, j, n);
        if j < n {
            lemma_body_unicode(u, j + 1, syn);
            lemma_unicode_split(u, j, j + 1, n);
        }
        match segment_component(seg, syn) {
            Some(c) => {
                lemma_all_unicode_cons(c, rest);
            },
            None => {},
        }
    }
}

/// The components of text without a prefix are valid Unicode exactly if
/// the text is.
proof fn lemma_rooted_body_unicode(u: Seq<Unit>, syn: Syntax)
    ensures
        all_unicode(rooted_body(u, syn)) <==> is_unicode(u),
{
    let n = u.len() as int;
    assert(u.subrange(0, n) =~= u);
    lemma_body_unicode(u, 0, syn);
    if n > 0 {
        lemma_all_unicode_cons(ComponentView::RootDir, body(u, 1, syn));
        lemma_all_unicode_cons(ComponentView::CurDir, body(u, 1, syn));
    }
}

/// Strict encoding succeeds exactly on the paths that are valid Unicode,
/// under either convention: a malformed unit is never lost between the
/// components, and no component is malformed where the text is not.
pub proof fn lemma_encodable_iff_unicode(u: Seq<Unit>, windows: bool)
    ensures
        encodable(u, windows) <==> is_unicode(u),
{
    if windows {
        let n = u.len() as int;
        let p = prefix_len(u);
        let syn = windows_syntax(u);
        lemma_prefix_len(u);
        assert(u.subrange(0, n) =~= u);
        if p > 0 {
            let head = ComponentView::Prefix(u.take(p));
            lemma_unicode_split(u, 0, p, n);
            if sep_at(u, p) {
                lemma_body_unicode(u, p + 1, syn);
                lemma_unicode_split(u, p, p + 1, n);
                let tail = seq![ComponentView::RootDir] + body(u, p + 1, syn);
                lemma_all_unicode_cons(ComponentView::RootDir, body(u, p + 1, syn));
                lemma_all_unicode_cons(head, tail);
                assert(seq![head] + seq![ComponentView::RootDir] + body(u, p + 1, syn) =~= seq![
                    head,
                ] + tail);
            } else if sep_at(u, 0) && !starts_verbatim(u) {
                lemma_body_unicode(u, p, syn);
                let tail = seq![ComponentView::RootDir] + body(u, p, syn);
                lemma_all_unicode_cons(ComponentView::RootDir, body(u, p, syn));
                lemma_all_unicode_cons(head, tail);
                assert(seq![head] + seq![ComponentView::RootDir] + body(u, p, syn) =~= seq![head]
                    + tail);
            } else {
                lemma_body_unicode(u, p, syn);
                lemma_all_unicode_cons(head, body(u, p, syn));
            }
        } else {
            lemma_rooted_body_unicode(u, Syntax::Windows);
        }
    }
}

/// The text `u` with the unit at position `k` written twice.
pub open spec fn doubled(u: Seq<Unit>, k: int) -> Seq<Unit> {
    u.insert(k, u[k])
}

/// Writing a separator twice changes no body that starts at or before it.
proof fn lemma_body_doubled(u: Seq<Unit>, k: int, i: int, syn: Syntax)
    requires
        0 <= i <= k + 1,
        k < u.len(),
        0 <= k,
        syn.separates(u[k]),
    ensures
        body(doubled(u, k), if i <= k { i } else { i + 1 }, syn) == body(u, i, syn),
{
    let v = doubled(u, k);
    assert(v.take(k + 1) =~= u.take(k + 1));
    assert(v.skip(k + 2) =~= u.skip(k + 1));
    lemma_body_suffix(v, k + 2, u, k + 1, syn);
    if i <= k {
        lemma_body_agree(v, u, i, k, syn);
    }
}

/// Writing a separator twice changes no component of text without a prefix.
proof fn lemma_rooted_body_doubled(u: Seq<Unit>, k: int, syn: Syntax)
    requires
        0 <= k < u.len(),
        syn.separates(u[k]),
    ensures
        rooted_body(doubled(u, k), syn) == rooted_body(u, syn),
{
    lemma_body_doubled(u, k, 1, syn);
    if k > 0 {
        lemma_body_doubled(u, k, 0, syn);
    }
}

/// A separator at the end changes no component of text without a prefix.
proof fn lemma_rooted_body_push(u: Seq<Unit>, x: Unit, syn: Syntax)
    requires
        u.len() > 0,
        syn.separates(x),
    ensures
        rooted_body(u.push(x), syn) == rooted_body(u, syn),
{
    lemma_body_push(u, x, 0, syn);
}

/// A separator at the end of a path is insignificant: the path with it and
/// the path without it have the same components.
///
/// Under the Windows convention this is so where the text goes on after its
/// prefix, and the separator does not make another prefix of it: `C:` is a
/// drive, and `C:\` is the root on that drive.
pub proof fn lemma_trailing_separator(u: Seq<Unit>, x: Unit, windows: bool)
    requires
        u.len() > 0,
        !windows ==> x == Unit::Scalar('/'),
        windows ==> windows_syntax(u).separates(x),
        windows ==> prefix_len(u) < u.len(),
        windows ==> prefix_len(u.push(x)) == prefix_len(u),
    ensures
        components(u.push(x), windows) == components(u, windows),
{
    let v = u.push(x);
    if windows {
        let p = prefix_len(u);
        let syn = windows_syntax(u);
        if p > 0 {
            assert(v.take(p) =~= u.take(p));
            lemma_body_push(u, x, p, syn);
            lemma_body_push(u, x, p + 1, syn);
        } else {
            lemma_rooted_body_push(u, x, Syntax::Windows);
        }
    } else {
        lemma_rooted_body_push(u, x, Syntax::Unix);
    }
}

/// Empty segments collapse: a path in which a separator is written twice
/// has the components of the path in which it is written once.
///
/// Under the Windows convention this is so for a separator after the
/// prefix, where writing it twice does not make another prefix of the
/// text.
pub proof fn lemma_doubled_separator(u: Seq<Unit>, k: int, windows: bool)
    requires
        0 <= k < u.len(),
        !windows ==> u[k] == Unit::Scalar('/'),
        windows ==> windows_syntax(u).separates(u[k]),
        windows ==> prefix_len(u) <= k,
        windows ==> prefix_len(doubled(u, k)) == prefix_len(u),
    ensures
        components(doubled(u, k), windows) == components(u, windows),
{
    let v = doubled(u, k);
    if windows {
        let p = prefix_len(u);
        let syn = windows_syntax(u);
        if p > 0 {
            assert(v.take(p) =~= u.take(p));
            if sep_at(u, p) {
                lemma_body_doubled(u, k, p + 1, syn);
            } else {
                lemma_body_doubled(u, k, p, syn);
            }
        } else {
            lemma_rooted_body_doubled(u, k, Syntax::Windows);
        }
    } else {
        lemma_rooted_body_doubled(u, k, Syntax::Unix);
    }
}

/// Under the Windows syntax, two texts that are spelled alike have the same
/// components from any position on.
proof fn lemma_body_alike(u: Seq<Unit>, w: Seq<Unit>, i: int)
    requires
        spelled_alike(u, w),
        0 <= i <= u.len(),
    ensures
        body(w, i, Syntax::Windows) == body(u, i, Syntax::Windows),
    decreases u.len() - i,
{
    if i < u.len() {
        lemma_segment_alike(u, w, i);
        lemma_segment_len(u, i, Syntax::Windows);
        let j = segment_stop(u, i, Syntax::Windows);
        if j < u.len() {
            lemma_body_alike(u, w, j + 1);
        }
    }
}

/// Under the Windows convention, which of `\` and `/` is written where a
/// separator stands is insignificant, in the prefix as after it: two paths
/// that are spelled alike are equal, unless one of them is verbatim. So
/// `//server/share/foo` is the path `\\server\share\foo`.
pub proof fn lemma_separator_spelling(u: Seq<Unit>, w: Seq<Unit>)
    requires
        spelled_alike(u, w),
        !starts_verbatim(u),
        !starts_verbatim(w),
    ensures
        path_names(w, true) == path_names(u, true),
{
    let win = Syntax::Windows;
    let p = prefix_len(u);
    let cu = components(u, true);
    let cw = components(w, true);
    lemma_prefix_len(u);
    lemma_prefix_len_alike(u, w);
    assert(forall|k: int| 0 <= k < u.len() ==> same_but_separator(#[trigger] u[k], w[k]));
    if p > 0 {
        assert(opens_alike(u, w)) by {
            assert forall|k: int| 0 <= k < p implies same_but_separator(
                #[trigger] u.take(p)[k],
                w.take(p)[k],
            ) by {
                assert(same_but_separator(u[k], w[k]));
            }
        }
        lemma_prefix_name_alike(u, w);
        lemma_body_alike(u, w, p);
        if p < u.len() {
            lemma_body_alike(u, w, p + 1);
        }
        assert(cu[0] == ComponentView::Prefix(u.take(p)));
        assert(cw[0] == ComponentView::Prefix(w.take(p)));
        assert(cw =~= cu.update(0, cw[0]));
        assert forall|k: int| 0 <= k < cu.len() implies names(cw)[k] == names(cu)[k] by {
            assert(names(cw)[k] == named(cw[k]));
            assert(names(cu)[k] == named(cu[k]));
        }
        assert(names(cw) =~= names(cu));
    } else {
        lemma_body_alike(u, w, 0);
        if u.len() > 0 {
            assert(same_but_separator(u[0], w[0]));
            lemma_body_alike(u, w, 1);
        }
        if u.len() > 1 {
            assert(same_but_separator(u[1], w[1]));
        }
        assert(cw =~= cu);
    }
}

/// Under the Windows convention, the case of a drive letter is
/// insignificant: two paths that differ in nothing but the case of the
/// drive letter they open with are equal. So `c:\foo` is the path `C:\foo`.
pub proof fn lemma_drive_letter_case(u: Seq<Unit>, w: Seq<Unit>)
    requires
        drive_at(u, 0),
        drive_at(w, 0),
        drive_letter(w, 0) == drive_letter(u, 0),
        w.skip(1) == u.skip(1),
    ensures
        path_names(w, true) == path_names(u, true),
{
    let win = Syntax::Windows;
    let cu = components(u, true);
    let cw = components(w, true);
    assert(w.len() == u.len()) by {
        assert(w.skip(1).len() == w.len() - 1);
        assert(u.skip(1).len() == u.len() - 1);
    }
    assert(forall|k: int|
        1 <= k < u.len() ==> w[k] == w.skip(1)[k - 1] && u[k] == u.skip(1)[k - 1]);
    assert(w.skip(2) =~= u.skip(2));
    lemma_body_suffix(w, 2, u, 2, win);
    if u.len() > 2 {
        assert(w.skip(3) =~= u.skip(3));
        lemma_body_suffix(w, 3, u, 3, win);
    }
    let tu = u.take(2);
    let tw = w.take(2);
    assert(prefix_len(tu) == 2 && prefix_len(tw) == 2);
    assert(prefix_name(tu) == prefix_name(tw));
    assert(cu[0] == ComponentView::Prefix(tu));
    assert(cw[0] == ComponentView::Prefix(tw));
    assert(cw =~= cu.update(0, cw[0]));
    assert forall|k: int| 0 <= k < cu.len() implies names(cw)[k] == names(cu)[k] by {
        assert(names(cw)[k] == named(cw[k]));
        assert(names(cu)[k] == named(cu[k]));
    }
    assert(names(cw) =~= names(cu));
}

/// Under the Windows convention the slash text of a path is written from
/// its components alone: paths with the same components have the same slash
/// text, and strict encoding fails for both or for neither.
pub proof fn lemma_same_components_encode_alike(u: Seq<Unit>, v: Seq<Unit>)
    requires
        components(u, true) == components(v, true),
    ensures
        slash_text(u, true) == slash_text(v, true),
        encodable(u, true) == encodable(v, true),
{
}

/// Whether text ends with `/`.
pub open spec fn ends_with_slash(t: Seq<Unit>) -> bool {
    t.len() > 0 && t.last() == Unit::Scalar('/')
}

/// Whether no prefix and no name ends with `/`. Under the Windows
/// convention a name can only do so after a verbatim prefix, and a prefix
/// only if it is verbatim or a device without a name.
pub open spec fn ends_clean(cs: Seq<ComponentView>) -> bool {
    forall|i: int|
        0 <= i < cs.len() ==> match #[trigger] cs[i] {
            ComponentView::Prefix(t) => !ends_with_slash(t),
            ComponentView::Normal(t) => !ends_with_slash(t),
            _ => true,
        }
}

/// The slash text of components that end in a segment does not end with
/// `/`, if the segment does not.
proof fn lemma_walked_segment(front: Seq<ComponentView>, c: ComponentView, syn: Syntax)
    requires
        is_segment(c, syn),
        !ends_with_slash(segment_text(c)),
    ensures
        walked(front.push(c)).len() > 0,
        walked(front.push(c)).last() != '/',
{
    let cs = front.push(c);
    assert(cs.drop_last() =~= front);
    assert(cs.last() == c);
    let t = segment_text(c);
    assert(t.len() > 0);
    assert(piece(c) =~= lossy(t) + seq!['/']);
    let j = joined(cs);
    assert(j =~= joined(front) + lossy(t) + seq!['/']);
    assert(j.drop_last() =~= joined(front) + lossy(t));
    assert(j.drop_last().last() == lossy(t)[t.len() - 1]);
    assert(lossy(t)[t.len() - 1] == t[t.len() - 1].lossy());
}

/// Under the Windows convention, slash text has no `/` at its end unless
/// it is `/` alone, for every path in which no prefix and no name ends with
/// `/`.
pub proof fn lemma_no_trailing_separator(u: Seq<Unit>)
    requires
        ends_clean(components(u, true)),
    ensures
        slash_text(u, true).len() > 1 ==> slash_text(u, true).last() != '/',
{
    let cs = components(u, true);
    let p = prefix_len(u);
    let syn = windows_syntax(u);
    let win = Syntax::Windows;
    lemma_prefix_len(u);
    let root = ComponentView::RootDir;
    // the components are a head of one or two, and a body of segments
    let h: int = if p > 0 {
        if sep_at(u, p) || (sep_at(u, 0) && !starts_verbatim(u)) {
            2
        } else {
            1
        }
    } else if rooted_body(u, win) == body(u, 0, win) {
        0
    } else {
        1
    };
    let start: int = if p > 0 {
        if sep_at(u, p) {
            p + 1
        } else {
            p
        }
    } else if h == 0 {
        0
    } else {
        1
    };
    let s = if p > 0 {
        syn
    } else {
        win
    };
    let b = body(u, start, s);
    if start <= u.len() {
        lemma_body_segments(u, start, s);
    }
    let head = cs.take(h);
    assert(cs =~= head + b);
    if b.len() > 0 {
        let c = b.last();
        assert(cs.last() == c);
        assert(cs[cs.len() - 1] == c);
        assert(is_segment(c, s));
        assert(!ends_with_slash(segment_text(c)));
        assert(cs =~= cs.drop_last().push(c));
        lemma_walked_segment(cs.drop_last(), c, s);
    } else {
        assert(cs =~= head);
        if p > 0 {
            let pre = u.take(p);
            let first = ComponentView::Prefix(pre);
            assert(cs[0] == first);
            assert(!ends_with_slash(pre));
            assert(lossy(pre).len() == p);
            assert(lossy(pre).last() == pre[p - 1].lossy());
            lemma_joined_one(first);
            if h == 2 {
                assert(cs =~= seq![first] + seq![root]);
                lemma_joined_concat(seq![first], seq![root]);
                lemma_joined_one(root);
                assert(joined(cs).drop_last() =~= lossy(pre));
            } else {
                assert(cs =~= seq![first]);
            }
        } else if h == 1 {
            let c = cs[0];
            assert(cs =~= seq![c]);
            lemma_joined_one(c);
            assert(walked(cs).len() <= 1 || walked(cs).last() == '.');
        } else {
            assert(cs =~= Seq::<ComponentView>::empty());
        }
    }
}

/// Dot segments are kept as they are: under every syntax `..` between
/// separators is the parent directory, a component of its own that is
/// written back as `..`.
pub proof fn lemma_parent_dir_is_kept(t: Seq<Unit>, syn: Syntax)
    requires
        is_dot_dot(t),
    ensures
        segment_component(t, syn) == Some(ComponentView::ParentDir),
        piece(ComponentView::ParentDir) == seq!['.', '.', '/'],
{
}

} // verus!
