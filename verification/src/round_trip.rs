//! Encoding a Windows path and decoding the slash text again.
//!
//! The slash text of a path is written from its components, so decoding it
//! gives a path that names the same, whatever redundant separators the text
//! of the first path held and whichever separator its prefix was written
//! with. This needs that no component can be taken for something else once
//! it is written out, which the conditions of [`lemma_windows_round_trip`]
//! spell out.
use crate::component::{ComponentView, Syntax};
use crate::decode::{lemma_rewritten_lossy, lemma_rewritten_slash, rewritten, rewritten_char};
use crate::encode::{
    all_unicode, component_is_unicode, joined, lemma_joined_concat, lemma_joined_one, slash_text,
    walked,
};
use crate::laws::lemma_encodable_iff_unicode;
use crate::name::{lemma_prefix_name_alike, named, names, path_names};
use crate::parse::{components, windows_components, windows_syntax};
use crate::prefix::{
    drive_at, has_implicit_root, is_shareless, lemma_prefix_len, lemma_prefix_stable,
    lemma_prefix_stop, opens_alike, prefix_len, same_but_separator, sep_at, spelled_alike,
    spells_verbatim, starts_verbatim,
};
use crate::segment::{
    body, is_dot, is_segment, lemma_body_push, lemma_body_segments, lemma_body_separator,
    lemma_segment_len, lemma_segment_stop_is, rooted_body, segment_component, segment_stop,
    segment_text,
};
use crate::text::{has_no_slash, is_unicode, lossy, Unit};
use vstd::prelude::*;

verus! {

/// Whether the text of a component holds no `/` that would be read
/// otherwise once it is written out: none at all in a name or a verbatim
/// prefix. In any other prefix `/` is a separator, and is read as one.
pub open spec fn component_has_no_slash(c: ComponentView) -> bool {
    match c {
        ComponentView::Prefix(t) => starts_verbatim(t) ==> has_no_slash(t),
        ComponentView::Normal(t) => has_no_slash(t),
        _ => true,
    }
}

/// Whether no component holds a `/` that would be read otherwise once the
/// component is written out.
pub open spec fn unambiguous(cs: Seq<ComponentView>) -> bool {
    forall|i: int| 0 <= i < cs.len() ==> component_has_no_slash(#[trigger] cs[i])
}

/// Whether the text of a segment holds no `/`.
pub open spec fn segment_has_no_slash(c: ComponentView) -> bool {
    has_no_slash(segment_text(c))
}

/// Whether every component is a segment that is valid Unicode and holds no
/// `/`: it can be written out and read again.
pub open spec fn all_segments(b: Seq<ComponentView>, syn: Syntax) -> bool {
    forall|k: int|
        0 <= k < b.len() ==> is_segment(#[trigger] b[k], syn) && component_is_unicode(b[k])
            && segment_has_no_slash(b[k])
}

/// Segments that are written out after any text, each followed by `\`, are
/// read as themselves from where that text ends.
pub proof fn lemma_body_of_joined(a: Seq<Unit>, b: Seq<ComponentView>, syn: Syntax)
    requires
        all_segments(b, syn),
        syn != Syntax::Unix,
    ensures
        body(a + rewritten(joined(b), '/', true), a.len() as int, syn) == b,
    decreases b.len(),
{
    let x = rewritten(joined(b), '/', true);
    let full = a + x;
    let i = a.len() as int;
    if b.len() > 0 {
        let c = b[0];
        let rest = b.drop_first();
        assert(b =~= seq![c] + rest);
        lemma_joined_concat(seq![c], rest);
        lemma_joined_one(c);
        let t = segment_text(c);
        let y = rewritten(joined(rest), '/', true);
        let a2 = a + t.push(Unit::Scalar('\\'));
        assert(full =~= a2 + y);
        lemma_body_of_joined(a2, rest, syn);
        let j = i + t.len();
        lemma_segment_stop_is(full, i, j, syn);
        assert(full.subrange(i, j) =~= t);
    }
}

/// The slash text of components that end in segments, decoded again: it
/// opens with what came before the segments, and from there on reads as
/// the segments. The first segment stands right there, as it was written.
pub proof fn lemma_written_body(hs: Seq<ComponentView>, b: Seq<ComponentView>, syn: Syntax)
    requires
        all_segments(b, syn),
        b.len() > 0,
        syn != Syntax::Unix,
    ensures
        ({
            let a = rewritten(joined(hs), '/', true);
            let w = rewritten(walked(hs + b), '/', true);
            let t = segment_text(b[0]);
            let i = a.len() as int;
            let j = i + t.len();
            &&& j <= w.len()
            &&& w.take(i) == a
            &&& w.subrange(i, j) == t
            &&& (w.len() == j || w[j] == Unit::Scalar('\\'))
            &&& body(w, i, syn) == b
        }),
{
    let a = rewritten(joined(hs), '/', true);
    let x = rewritten(joined(b), '/', true);
    let w = rewritten(walked(hs + b), '/', true);
    let t = segment_text(b[0]);
    let back = Unit::Scalar('\\');
    lemma_joined_concat(hs, b);
    assert(w.push(back) =~= a + x);
    lemma_body_of_joined(a, b, syn);
    lemma_body_push(w, back, a.len() as int, syn);
    // where the first segment stands
    let rest = b.drop_first();
    assert(b =~= seq![b[0]] + rest);
    lemma_joined_concat(seq![b[0]], rest);
    lemma_joined_one(b[0]);
    assert(x =~= t.push(back) + rewritten(joined(rest), '/', true));
}

/// Whether the path is a prefix and the root after it, and nothing else,
/// where the prefix is one that implies no root: a drive, as in `C:\`, or a
/// verbatim prefix. The slash text of such a path ends with the prefix.
pub open spec fn is_bare_root(u: Seq<Unit>) -> bool {
    &&& windows_components(u).len() == 2
    &&& windows_components(u)[1] is RootDir
    &&& prefix_len(u) > 0
    &&& !has_implicit_root(u)
}

/// Whether a Windows path can be read back from its slash text:
///
/// - it is valid Unicode;
/// - no name and no verbatim prefix holds a `/`;
/// - it is no bare root;
/// - if it opens with a verbatim network share that names no share, it
///   ends there;
/// - its prefix is not one that would be verbatim if it were written with
///   `\` alone.
pub open spec fn reads_back(u: Seq<Unit>) -> bool {
    &&& is_unicode(u)
    &&& unambiguous(windows_components(u))
    &&& !is_bare_root(u)
    &&& is_shareless(u) ==> u.len() == prefix_len(u)
    &&& prefix_len(u) > 0 ==> !spells_verbatim(u)
}

/// The slash text of a Windows path, decoded again.
pub open spec fn written_back(u: Seq<Unit>) -> Seq<Unit> {
    rewritten(slash_text(u, true), '/', true)
}

/// Whether the slash text of `u`, decoded again, has the components of `u`,
/// but that its prefix, if it is not verbatim, is written with `\` for each
/// `/`.
pub open spec fn reads_as_written(u: Seq<Unit>) -> bool {
    let w = written_back(u);
    let p = prefix_len(u);
    let cs = windows_components(u);
    if p > 0 {
        &&& prefix_len(w) == p
        &&& opens_alike(u, w)
        &&& has_no_slash(u.take(p)) ==> w.take(p) == u.take(p)
        &&& windows_components(w) == cs.update(0, ComponentView::Prefix(w.take(p)))
    } else {
        windows_components(w) == cs
    }
}

/// The components of a body are segments; they are valid Unicode and hold
/// no `/` where all components of the path are and do.
proof fn lemma_tail_segments(cs: Seq<ComponentView>, h: int, u: Seq<Unit>, i: int, syn: Syntax)
    requires
        0 <= i <= u.len(),
        0 <= h <= cs.len(),
        cs.skip(h) == body(u, i, syn),
        all_unicode(cs),
        unambiguous(cs),
    ensures
        all_segments(body(u, i, syn), syn),
{
    let b = body(u, i, syn);
    lemma_body_segments(u, i, syn);
    assert forall|k: int| 0 <= k < b.len() implies is_segment(#[trigger] b[k], syn)
        && component_is_unicode(b[k]) && segment_has_no_slash(b[k]) by {
        assert(b[k] == cs.skip(h)[k]);
        assert(cs.skip(h)[k] == cs[k + h]);
        assert(component_has_no_slash(cs[k + h]));
    }
}

/// A prefix that is valid Unicode is written out and read again as text
/// that is spelled like it, and as itself if it holds no `/`.
proof fn lemma_written_prefix(t: Seq<Unit>)
    requires
        is_unicode(t),
    ensures
        rewritten(lossy(t), '/', true).len() == t.len(),
        spelled_alike(t, rewritten(lossy(t), '/', true)),
        has_no_slash(t) ==> rewritten(lossy(t), '/', true) == t,
{
    let r = rewritten(lossy(t), '/', true);
    assert forall|k: int| 0 <= k < t.len() implies same_but_separator(
        #[trigger] t[k],
        r[k],
    ) by {
        assert(r[k] == rewritten_char(lossy(t)[k], '/', true));
        assert(t[k] is Scalar);
    }
    if has_no_slash(t) {
        lemma_rewritten_lossy(t);
    }
}

/// The prefix of a path that can be read back, written out and read again.
proof fn lemma_head(u: Seq<Unit>)
    requires
        reads_back(u),
        prefix_len(u) > 0,
    ensures
        ({
            let pre = u.take(prefix_len(u));
            let r = rewritten(lossy(pre), '/', true);
            &&& windows_components(u)[0] == ComponentView::Prefix(pre)
            &&& r.len() == pre.len()
            &&& spelled_alike(pre, r)
            &&& has_no_slash(pre) ==> r == pre
            &&& starts_verbatim(u) ==> r == pre
            &&& joined(seq![ComponentView::Prefix(pre)]) == lossy(pre)
            &&& joined(seq![ComponentView::Prefix(pre), ComponentView::RootDir]) == lossy(pre)
                + seq!['/']
            &&& rewritten(joined(seq![ComponentView::Prefix(pre)]), '/', true) == r
            &&& rewritten(
                joined(seq![ComponentView::Prefix(pre), ComponentView::RootDir]),
                '/',
                true,
            ) == r.push(Unit::Scalar('\\'))
        }),
{
    let p = prefix_len(u);
    let pre = u.take(p);
    let head = ComponentView::Prefix(pre);
    let cs = windows_components(u);
    lemma_prefix_len(u);
    lemma_encodable_iff_unicode(u, true);
    assert(cs[0] == head);
    assert(component_is_unicode(cs[0]) && component_has_no_slash(cs[0]));
    lemma_written_prefix(pre);
    if starts_verbatim(u) {
        assert(forall|k: int| 0 <= k < 4 ==> pre[k] == u[k]);
        assert(starts_verbatim(pre));
    }
    lemma_joined_one(head);
    let hs = seq![head, ComponentView::RootDir];
    assert(hs =~= seq![head] + seq![ComponentView::RootDir]);
    lemma_joined_concat(seq![head], seq![ComponentView::RootDir]);
    lemma_joined_one(ComponentView::RootDir);
    lemma_rewritten_slash();
    let r = rewritten(lossy(pre), '/', true);
    let both = rewritten(joined(hs), '/', true);
    assert(both =~= r.push(Unit::Scalar('\\'))) by {
        assert(joined(hs) =~= lossy(pre) + seq!['/']);
        assert(both.len() == r.len() + 1);
        assert forall|k: int| 0 <= k < both.len() implies both[k] == r.push(
            Unit::Scalar('\\'),
        )[k] by {
            assert(both[k] == rewritten_char(joined(hs)[k], '/', true));
            if k < r.len() {
                assert(r[k] == rewritten_char(lossy(pre)[k], '/', true));
            }
        }
    }
}

/// The round trip of a path with a prefix and a root.
proof fn lemma_round_trip_prefix_root(u: Seq<Unit>)
    requires
        reads_back(u),
        prefix_len(u) > 0,
        sep_at(u, prefix_len(u)) || has_implicit_root(u),
    ensures
        reads_as_written(u),
{
    let cs = windows_components(u);
    let w = written_back(u);
    let p = prefix_len(u);
    let syn = windows_syntax(u);
    let back = Unit::Scalar('\\');
    lemma_encodable_iff_unicode(u, true);
    lemma_prefix_len(u);
    lemma_head(u);
    let pre = u.take(p);
    let r = rewritten(lossy(pre), '/', true);
    let head = ComponentView::Prefix(pre);
    let i = if sep_at(u, p) {
        p + 1
    } else {
        p
    };
    let b = body(u, i, syn);
    let hs = seq![head, ComponentView::RootDir];
    assert(cs =~= hs + b);
    assert(cs.skip(2) =~= b);
    lemma_tail_segments(cs, 2, u, i, syn);
    if b.len() > 0 {
        lemma_written_body(hs, b, syn);
        assert(w.take(p) =~= w.take(p + 1).take(p));
        assert(w.take(p) =~= r);
        assert(w[p] == w.take(p + 1)[p]);
        assert(u.len() > p);
    } else {
        assert(cs =~= hs);
        assert(joined(hs).len() > 1);
        assert(joined(hs).drop_last() =~= lossy(pre));
        assert(w =~= r);
        assert(w.take(p) =~= r);
        assert(body(w, p, syn) =~= Seq::empty());
    }
    assert(opens_alike(u, w));
    lemma_prefix_stable(u, w);
    assert(windows_components(w) =~= cs.update(0, ComponentView::Prefix(w.take(p))));
}

/// The round trip of a path with a prefix and no root.
proof fn lemma_round_trip_prefix(u: Seq<Unit>)
    requires
        reads_back(u),
        prefix_len(u) > 0,
        !(sep_at(u, prefix_len(u)) || has_implicit_root(u)),
    ensures
        reads_as_written(u),
{
    let cs = windows_components(u);
    let w = written_back(u);
    let p = prefix_len(u);
    let syn = windows_syntax(u);
    lemma_encodable_iff_unicode(u, true);
    lemma_prefix_len(u);
    lemma_head(u);
    let pre = u.take(p);
    let r = rewritten(lossy(pre), '/', true);
    let head = ComponentView::Prefix(pre);
    let b = body(u, p, syn);
    let hs = seq![head];
    assert(cs =~= hs + b);
    assert(cs.skip(1) =~= b);
    lemma_tail_segments(cs, 1, u, p, syn);
    if sep_at(u, 0) {
        lemma_prefix_stop(u);
        assert(u.len() == p);
    }
    if b.len() > 0 {
        lemma_written_body(hs, b, syn);
        let t = segment_text(b[0]);
        assert(is_segment(b[0], syn));
        assert(t.len() > 0);
        assert(w[p] == w.subrange(p, p + t.len())[0]);
        assert(!syn.separates(t[0]));
        assert(segment_has_no_slash(b[0]));
        assert(t[0] != Unit::Scalar('/'));
        assert(!sep_at(w, p));
        assert(w.take(p) =~= r);
        assert(u.len() > p);
    } else {
        assert(cs =~= hs);
        assert(lossy(pre).len() == p);
        assert(lossy(pre).last() == pre[p - 1].lossy());
        assert(pre[p - 1] == u[p - 1]);
        assert(lossy(pre).last() != '/') by {
            if starts_verbatim(u) {
                assert(has_no_slash(pre));
            } else {
                assert(p == 2);
            }
        }
        assert(w =~= r);
        assert(w.take(p) =~= r);
        assert(body(w, p, syn) =~= Seq::empty());
    }
    assert(opens_alike(u, w));
    lemma_prefix_stable(u, w);
    assert(windows_components(w) =~= cs.update(0, ComponentView::Prefix(w.take(p))));
}

/// The round trip of a path without a prefix that starts at the root.
proof fn lemma_round_trip_root(u: Seq<Unit>)
    requires
        reads_back(u),
        prefix_len(u) == 0,
        u.len() > 0,
        Syntax::Windows.separates(u[0]),
    ensures
        reads_as_written(u),
{
    let cs = windows_components(u);
    let w = written_back(u);
    let win = Syntax::Windows;
    let back = Unit::Scalar('\\');
    lemma_encodable_iff_unicode(u, true);
    lemma_rewritten_slash();
    let b = body(u, 1, win);
    let hs = seq![ComponentView::RootDir];
    assert(cs =~= hs + b);
    assert(cs.skip(1) =~= b);
    lemma_tail_segments(cs, 1, u, 1, win);
    lemma_joined_one(ComponentView::RootDir);
    let a = rewritten(joined(hs), '/', true);
    assert(a =~= seq![back]);
    if b.len() > 0 {
        lemma_written_body(hs, b, win);
        assert(w[0] == w.take(1)[0]);
        let t = segment_text(b[0]);
        assert(is_segment(b[0], win));
        assert(w[1] == w.subrange(1, 1int + t.len())[0]);
        assert(!win.separates(t[0]));
    } else {
        assert(cs =~= hs);
        assert(w =~= seq![back]);
        assert(body(w, 1, win) =~= Seq::empty());
    }
    assert(!sep_at(w, 1));
    assert(prefix_len(w) == 0);
    assert(rooted_body(w, win) =~= hs + body(w, 1, win));
}

/// The round trip of a path without a prefix that starts at the current
/// directory.
proof fn lemma_round_trip_cur_dir(u: Seq<Unit>)
    requires
        reads_back(u),
        prefix_len(u) == 0,
        u.len() >= 1,
        u[0] == Unit::Scalar('.'),
        u.len() == 1 || Syntax::Windows.separates(u[1]),
    ensures
        reads_as_written(u),
{
    let cs = windows_components(u);
    let w = written_back(u);
    let win = Syntax::Windows;
    let back = Unit::Scalar('\\');
    lemma_encodable_iff_unicode(u, true);
    lemma_rewritten_slash();
    let b = body(u, 1, win);
    let hs = seq![ComponentView::CurDir];
    assert(cs =~= hs + b);
    assert(cs.skip(1) =~= b);
    lemma_tail_segments(cs, 1, u, 1, win);
    lemma_joined_one(ComponentView::CurDir);
    let a = rewritten(joined(hs), '/', true);
    assert(a =~= seq![Unit::Scalar('.'), back]);
    if b.len() > 0 {
        lemma_written_body(hs, b, win);
        assert(w[0] == w.take(2)[0]);
        assert(w[1] == w.take(2)[1]);
        lemma_body_separator(w, 1, win);
    } else {
        assert(cs =~= hs);
        assert(joined(hs).drop_last() =~= seq!['.']);
        assert(w =~= seq![Unit::Scalar('.')]);
        assert(body(w, 1, win) =~= Seq::empty());
    }
    assert(w[0] == Unit::Scalar('.'));
    assert(prefix_len(w) == 0);
    assert(rooted_body(w, win) =~= hs + body(w, 1, win));
}

/// The round trip of a path without a prefix that starts with a name or
/// with the parent directory.
proof fn lemma_round_trip_relative(u: Seq<Unit>)
    requires
        reads_back(u),
        prefix_len(u) == 0,
        rooted_body(u, Syntax::Windows) == body(u, 0, Syntax::Windows),
    ensures
        reads_as_written(u),
{
    let cs = windows_components(u);
    let w = written_back(u);
    let win = Syntax::Windows;
    lemma_encodable_iff_unicode(u, true);
    lemma_rewritten_slash();
    let b = body(u, 0, win);
    let hs = Seq::<ComponentView>::empty();
    assert(cs =~= hs + b);
    assert(cs.skip(0) =~= b);
    lemma_tail_segments(cs, 0, u, 0, win);
    assert(joined(hs) =~= Seq::<char>::empty());
    if b.len() > 0 {
        lemma_written_body(hs, b, win);
        let t = segment_text(b[0]);
        assert(is_segment(b[0], win));
        assert(t.len() > 0);
        assert(w.subrange(0, t.len() as int)[0] == w[0]);
        assert(!win.separates(t[0]));
        // the first segment of the text is the first component
        lemma_segment_len(u, 0, win);
        let j = segment_stop(u, 0, win);
        assert(u.len() > 0);
        assert(j > 0);
        assert(u.subrange(0, j)[0] == u[0]);
        assert(segment_component(u.subrange(0, j), win) is Some);
        assert(t =~= u.subrange(0, j));
        if t.len() > 1 {
            assert(w.subrange(0, t.len() as int)[1] == w[1]);
            assert(!win.separates(t[1]));
            assert(u.subrange(0, j)[1] == u[1]);
        } else {
            assert(!is_dot(t));
        }
        assert(!drive_at(w, 0));
        assert(prefix_len(w) == 0);
        assert(rooted_body(w, win) == body(w, 0, win));
    } else {
        assert(cs =~= hs);
        assert(w =~= Seq::<Unit>::empty());
        assert(prefix_len(w) == 0);
        assert(rooted_body(w, win) =~= Seq::empty());
    }
}

/// Under the Windows convention, the slash text of a path that can be read
/// back decodes to the components of the path, but that a prefix that is
/// not verbatim comes back written with `\` for each `/`.
pub proof fn lemma_windows_written_back(u: Seq<Unit>)
    requires
        reads_back(u),
    ensures
        reads_as_written(u),
{
    let win = Syntax::Windows;
    if prefix_len(u) > 0 {
        if sep_at(u, prefix_len(u)) || has_implicit_root(u) {
            lemma_round_trip_prefix_root(u);
        } else {
            lemma_round_trip_prefix(u);
        }
    } else if u.len() > 0 && win.separates(u[0]) {
        lemma_round_trip_root(u);
    } else if u.len() >= 1 && u[0] == Unit::Scalar('.') && (u.len() == 1 || win.separates(u[1])) {
        lemma_round_trip_cur_dir(u);
    } else {
        lemma_round_trip_relative(u);
    }
}

/// Under the Windows convention, encoding a path and decoding its slash
/// text gives a path that is equal to it: the two name the same.
///
/// This is so for a path that is valid Unicode and has no `/` in a name or
/// in a verbatim prefix, with three exceptions. A bare root loses its root
/// with the separator at its end: `C:\` is written as `C:`. Where a verbatim
/// network share names no share, the first name after it would be read as
/// the share. And a share on the server `?` that is written as `//?/share`
/// would be read as a verbatim prefix.
pub proof fn lemma_windows_round_trip(u: Seq<Unit>)
    requires
        reads_back(u),
    ensures
        path_names(written_back(u), true) == path_names(u, true),
{
    let w = written_back(u);
    let p = prefix_len(u);
    let cs = windows_components(u);
    lemma_windows_written_back(u);
    if p > 0 {
        lemma_prefix_name_alike(u, w);
        let ws = windows_components(w);
        assert(cs[0] == ComponentView::Prefix(u.take(p)));
        assert forall|k: int| 0 <= k < cs.len() implies names(ws)[k] == names(cs)[k] by {
            assert(names(ws)[k] == named(ws[k]));
            assert(names(cs)[k] == named(cs[k]));
        }
        assert(names(ws) =~= names(cs));
    }
}

/// Under the Windows convention, a path whose prefix holds no `/` comes
/// back from its slash text with the very same components, and slash text
/// that was written from it is the slash text of the path it decodes to.
pub proof fn lemma_windows_slash_text_is_stable(u: Seq<Unit>)
    requires
        reads_back(u),
        has_no_slash(u.take(prefix_len(u))),
    ensures
        components(written_back(u), true) == components(u, true),
        slash_text(written_back(u), true) == slash_text(u, true),
{
    let p = prefix_len(u);
    let cs = windows_components(u);
    lemma_windows_written_back(u);
    if p > 0 {
        assert(cs[0] == ComponentView::Prefix(u.take(p)));
        assert(cs.update(0, ComponentView::Prefix(u.take(p))) =~= cs);
    }
}

/// Encoding tells paths apart: two paths with the same slash text are
/// equal. Under the Unix convention this is so for paths that are valid
/// Unicode, which then have the same text; under the Windows convention for
/// paths that can be read back.
pub proof fn lemma_encoding_is_injective(u: Seq<Unit>, v: Seq<Unit>, windows: bool)
    requires
        slash_text(u, windows) == slash_text(v, windows),
        windows ==> reads_back(u) && reads_back(v),
        !windows ==> is_unicode(u) && is_unicode(v),
    ensures
        path_names(u, windows) == path_names(v, windows),
        !windows ==> u == v,
{
    if windows {
        lemma_windows_round_trip(u);
        lemma_windows_round_trip(v);
    } else {
        assert(lossy(u).len() == u.len() && lossy(v).len() == v.len());
        assert forall|i: int| 0 <= i < u.len() implies u[i] == v[i] by {
            assert(lossy(u)[i] == u[i].lossy());
            assert(lossy(v)[i] == v[i].lossy());
        }
        assert(u =~= v);
    }
}

} // verus!
