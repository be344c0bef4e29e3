//! Segments: the text between separators, and the components it stands
//! for.
//!
//! After its prefix and root, the text of a path is a run of segments with
//! a separator between each two. A segment that is empty stands for
//! nothing, and so does `.` unless the syntax is verbatim; `..` stands for
//! the parent directory, and any other segment for a name.
use crate::component::{views, Component, ComponentView, Syntax};
use crate::text::Unit;
use vstd::prelude::*;

verus! {

/// How many units from position `i` on come before the next separator, or
/// before the end where there is none.
pub open spec fn segment_len(u: Seq<Unit>, i: int, syn: Syntax) -> nat
    decreases u.len() - i,
{
    if 0 <= i < u.len() && !syn.separates(u[i]) {
        1 + segment_len(u, i + 1, syn)
    } else {
        0
    }
}

/// Where the segment that starts at `i` stops: the position of the next
/// separator, or the end of the text.
pub open spec fn segment_stop(u: Seq<Unit>, i: int, syn: Syntax) -> int {
    i + segment_len(u, i, syn)
}

/// Whether `t` is the text `.`.
pub open spec fn is_dot(t: Seq<Unit>) -> bool {
    t.len() == 1 && t[0] == Unit::Scalar('.')
}

/// Whether `t` is the text `..`.
pub open spec fn is_dot_dot(t: Seq<Unit>) -> bool {
    t.len() == 2 && t[0] == Unit::Scalar('.') && t[1] == Unit::Scalar('.')
}

/// The component that the text between two separators stands for, if any:
/// none for empty text, and none for `.` unless the syntax keeps it.
pub open spec fn segment_component(t: Seq<Unit>, syn: Syntax) -> Option<ComponentView> {
    if t.len() == 0 {
        None
    } else if is_dot(t) {
        if syn.keeps_cur_dir() {
            Some(ComponentView::CurDir)
        } else {
            None
        }
    } else if is_dot_dot(t) {
        Some(ComponentView::ParentDir)
    } else {
        Some(ComponentView::Normal(t))
    }
}

/// The components of the text from position `i` on, where `i` is past any
/// prefix and root: one for each segment that stands for one.
pub open spec fn body(u: Seq<Unit>, i: int, syn: Syntax) -> Seq<ComponentView>
    decreases u.len() - i,
{
    if 0 <= i < u.len() {
        let j = segment_stop(u, i, syn);
        let rest = if j < u.len() {
            body(u, j + 1, syn)
        } else {
            Seq::empty()
        };
        match segment_component(u.subrange(i, j), syn) {
            Some(c) => seq![c] + rest,
            None => rest,
        }
    } else {
        Seq::empty()
    }
}

/// Whether the text opens with a `.` that is a component of its own: a `.`
/// that is the whole text, or is followed by a separator.
pub open spec fn leading_cur_dir(u: Seq<Unit>, syn: Syntax) -> bool {
    u.len() >= 1 && u[0] == Unit::Scalar('.') && (u.len() == 1 || syn.separates(u[1]))
}

/// The components of text that has no prefix: the root if it opens with a
/// separator, the current directory if it opens with a `.` of its own, then
/// the body.
pub open spec fn rooted_body(u: Seq<Unit>, syn: Syntax) -> Seq<ComponentView> {
    if u.len() > 0 && syn.separates(u[0]) {
        seq![ComponentView::RootDir] + body(u, 1, syn)
    } else if leading_cur_dir(u, syn) {
        seq![ComponentView::CurDir] + body(u, 1, syn)
    } else {
        body(u, 0, syn)
    }
}

/// The text that a component of a body was read from.
pub open spec fn segment_text(c: ComponentView) -> Seq<Unit> {
    match c {
        ComponentView::Normal(t) => t,
        ComponentView::ParentDir => seq![Unit::Scalar('.'), Unit::Scalar('.')],
        ComponentView::CurDir => seq![Unit::Scalar('.')],
        _ => Seq::empty(),
    }
}

/// Whether `c` can come out of a body under the syntax `syn`: it is the
/// component of its own text, and that text holds no separator.
pub open spec fn is_segment(c: ComponentView, syn: Syntax) -> bool {
    &&& segment_component(segment_text(c), syn) == Some(c)
    &&& forall|i: int|
        0 <= i < segment_text(c).len() ==> !syn.separates(#[trigger] segment_text(c)[i])
}

/// Finds where the segment that starts at `i` ends.
pub fn segment_end(u: &[Unit], i: usize, syn: Syntax) -> (j: usize)
    requires
        i <= u@.len(),
    ensures
        j == segment_stop(u@, i as int, syn),
        i <= j <= u@.len(),
{
    let n: usize = u.len();
    let mut j: usize = i;
    while j < n && !syn.is_separator(u[j])
        invariant
            n == u@.len(),
            i <= j <= n,
            segment_len(u@, i as int, syn) == (j - i) + segment_len(u@, j as int, syn),
        decreases n - j,
    {
        j = j + 1;
    }
    j
}

/// Reads the text between two separators as a component, if it is one.
pub fn classify(t: &[Unit], syn: Syntax) -> (r: Option<Component>)
    ensures
        r is Some <==> segment_component(t@, syn) is Some,
        r matches Some(c) ==> Some(c@) == segment_component(t@, syn),
{
    let n: usize = t.len();
    if n == 0 {
        None
    } else if n == 1 && t[0].eq_char('.') {
        match syn {
            Syntax::Verbatim => Some(Component::CurDir),
            _ => None,
        }
    } else if n == 2 && t[0].eq_char('.') && t[1].eq_char('.') {
        Some(Component::ParentDir)
    } else {
        Some(Component::Normal(vstd::slice::slice_to_vec(t)))
    }
}

/// Appends to `out` the components of the text from position `from` on.
pub fn push_body(u: &[Unit], from: usize, syn: Syntax, out: &mut Vec<Component>)
    ensures
        views(final(out)@) == views(old(out)@) + body(u@, from as int, syn),
{
    let n: usize = u.len();
    let mut i: usize = from;
    while i < n
        invariant
            n == u@.len(),
            views(out@) + body(u@, i as int, syn) == views(old(out)@) + body(u@, from as int, syn),
        decreases n - i,
    {
        let j = segment_end(u, i, syn);
        match classify(vstd::slice::slice_subrange(u, i, j), syn) {
            Some(c) => {
                out.push(c);
            },
            None => {},
        }
        if j < n {
            i = j + 1;
        } else {
            i = n;
        }
    }
}

/// Appends to `out` the components of text that has no prefix.
pub fn push_rooted_body(u: &[Unit], syn: Syntax, out: &mut Vec<Component>)
    ensures
        views(final(out)@) == views(old(out)@) + rooted_body(u@, syn),
{
    let n: usize = u.len();
    if n > 0 && syn.is_separator(u[0]) {
        out.push(Component::RootDir);
        push_body(u, 1, syn, out);
    } else if n >= 1 && u[0].eq_char('.') && (n == 1 || syn.is_separator(u[1])) {
        out.push(Component::CurDir);
        push_body(u, 1, syn, out);
    } else {
        push_body(u, 0, syn, out);
    }
}

/// The segment that starts at `i` ends at a separator or at the end of the
/// text, and holds no separator.
pub proof fn lemma_segment_len(u: Seq<Unit>, i: int, syn: Syntax)
    requires
        0 <= i <= u.len(),
    ensures
        i <= segment_stop(u, i, syn) <= u.len(),
        segment_stop(u, i, syn) < u.len() ==> syn.separates(u[segment_stop(u, i, syn)]),
        forall|k: int| i <= k < segment_stop(u, i, syn) ==> !syn.separates(#[trigger] u[k]),
    decreases u.len() - i,
{
    if i < u.len() && !syn.separates(u[i]) {
        lemma_segment_len(u, i + 1, syn);
    }
}

/// A segment stops at the first separator after its start, or at the end
/// of the text.
pub proof fn lemma_segment_stop_is(u: Seq<Unit>, i: int, j: int, syn: Syntax)
    requires
        0 <= i <= j <= u.len(),
        forall|k: int| i <= k < j ==> !syn.separates(#[trigger] u[k]),
        j == u.len() || syn.separates(u[j]),
    ensures
        segment_stop(u, i, syn) == j,
    decreases j - i,
{
    if i < j {
        lemma_segment_stop_is(u, i + 1, j, syn);
    }
}

/// A segment of one text is a segment of another text that agrees with it
/// up to where the segment stops, and stops there too.
pub proof fn lemma_segment_stop_same(u: Seq<Unit>, w: Seq<Unit>, i: int, j: int, syn: Syntax)
    requires
        0 <= i <= j,
        j <= u.len(),
        j <= w.len(),
        j == segment_stop(u, i, syn),
        w.take(j) == u.take(j),
        w.len() == j || syn.separates(w[j]),
    ensures
        segment_stop(w, i, syn) == j,
{
    lemma_segment_len(u, i, syn);
    assert forall|k: int| i <= k < j implies !syn.separates(#[trigger] w[k]) by {
        assert(u[k] == u.take(j)[k]);
    }
    lemma_segment_stop_is(w, i, j, syn);
}

/// Where a segment stops depends only on the text from its start on.
pub proof fn lemma_segment_len_suffix(u: Seq<Unit>, i: int, v: Seq<Unit>, j: int, syn: Syntax)
    requires
        0 <= i <= u.len(),
        0 <= j <= v.len(),
        u.skip(i) == v.skip(j),
    ensures
        segment_len(u, i, syn) == segment_len(v, j, syn),
    decreases u.len() - i,
{
    assert(v.skip(j).len() == v.len() - j);
    if i < u.len() {
        assert(v[j] == v.skip(j)[0]);
        if !syn.separates(u[i]) {
            assert(u.skip(i + 1) =~= u.skip(i).skip(1));
            assert(v.skip(j + 1) =~= v.skip(j).skip(1));
            lemma_segment_len_suffix(u, i + 1, v, j + 1, syn);
        }
    }
}

/// In two texts that agree up to a separator, the segments that start
/// before it are the same.
pub proof fn lemma_segment_len_agree(u: Seq<Unit>, v: Seq<Unit>, i: int, k: int, syn: Syntax)
    requires
        0 <= i <= k,
        k < u.len(),
        k < v.len(),
        u.take(k + 1) == v.take(k + 1),
        syn.separates(u[k]),
    ensures
        segment_len(u, i, syn) == segment_len(v, i, syn),
        segment_stop(u, i, syn) <= k,
    decreases k - i,
{
    assert(v[i] == v.take(k + 1)[i]);
    if i < k && !syn.separates(u[i]) {
        lemma_segment_len_agree(u, v, i + 1, k, syn);
    }
}

/// A separator at the end of the text ends the last segment where the end
/// of the text did.
pub proof fn lemma_segment_len_push(u: Seq<Unit>, x: Unit, i: int, syn: Syntax)
    requires
        0 <= i <= u.len(),
        syn.separates(x),
    ensures
        segment_len(u.push(x), i, syn) == segment_len(u, i, syn),
    decreases u.len() - i,
{
    if i < u.len() && !syn.separates(u[i]) {
        lemma_segment_len_push(u, x, i + 1, syn);
    }
}

/// A separator opens an empty segment, which stands for no component.
pub proof fn lemma_body_separator(u: Seq<Unit>, i: int, syn: Syntax)
    requires
        0 <= i < u.len(),
        syn.separates(u[i]),
    ensures
        body(u, i, syn) == body(u, i + 1, syn),
{
}

/// The components of a body depend only on the text from its start on.
pub proof fn lemma_body_suffix(u: Seq<Unit>, i: int, v: Seq<Unit>, j: int, syn: Syntax)
    requires
        0 <= i <= u.len(),
        0 <= j <= v.len(),
        u.skip(i) == v.skip(j),
    ensures
        body(u, i, syn) == body(v, j, syn),
    decreases u.len() - i,
{
    if i < u.len() {
        lemma_segment_len_suffix(u, i, v, j, syn);
        lemma_segment_len(v, j, syn);
        let n = segment_len(u, i, syn) as int;
        assert(u.subrange(i, i + n) =~= u.skip(i).take(n));
        assert(v.subrange(j, j + n) =~= v.skip(j).take(n));
        if i + n < u.len() {
            assert(u.skip(i + n + 1) =~= u.skip(i).skip(n + 1));
            assert(v.skip(j + n + 1) =~= v.skip(j).skip(n + 1));
            lemma_body_suffix(u, i + n + 1, v, j + n + 1, syn);
        }
    }
}

/// In two texts that agree up to a separator and have the same components
/// after it, the bodies that start before it are the same.
pub proof fn lemma_body_agree(u: Seq<Unit>, v: Seq<Unit>, i: int, k: int, syn: Syntax)
    requires
        0 <= i <= k,
        k < u.len(),
        k < v.len(),
        u.take(k + 1) == v.take(k + 1),
        syn.separates(u[k]),
        body(u, k + 1, syn) == body(v, k + 1, syn),
    ensures
        body(u, i, syn) == body(v, i, syn),
    decreases k - i,
{
    assert(v[k] == v.take(k + 1)[k]);
    if i < k {
        lemma_segment_len_agree(u, v, i, k, syn);
        let j = segment_stop(u, i, syn);
        assert(u.subrange(i, j) =~= u.take(k + 1).subrange(i, j));
        assert(v.subrange(i, j) =~= v.take(k + 1).subrange(i, j));
        if j < k {
            lemma_body_agree(u, v, j + 1, k, syn);
        }
    }
}

/// A separator at the end of the text adds no component.
pub proof fn lemma_body_push(u: Seq<Unit>, x: Unit, i: int, syn: Syntax)
    requires
        0 <= i <= u.len(),
        syn.separates(x),
    ensures
        body(u.push(x), i, syn) == body(u, i, syn),
    decreases u.len() - i,
{
    let v = u.push(x);
    if i < u.len() {
        lemma_segment_len_push(u, x, i, syn);
        lemma_segment_len(u, i, syn);
        let j = segment_stop(u, i, syn);
        assert(v.subrange(i, j) =~= u.subrange(i, j));
        if j < u.len() {
            lemma_body_push(u, x, j + 1, syn);
        } else {
            assert(body(v, j + 1, syn) =~= Seq::empty());
        }
    } else {
        lemma_body_separator(v, i, syn);
    }
}

/// Every component of a body is a segment.
pub proof fn lemma_body_segments(u: Seq<Unit>, i: int, syn: Syntax)
    requires
        0 <= i <= u.len(),
    ensures
        forall|k: int|
            0 <= k < body(u, i, syn).len() ==> is_segment(#[trigger] body(u, i, syn)[k], syn),
    decreases u.len() - i,
{
    if i < u.len() {
        lemma_segment_len(u, i, syn);
        let j = segment_stop(u, i, syn);
        let seg = u.subrange(i, j);
        let rest = if j < u.len() {
            body(u, j + 1, syn)
        } else {
            Seq::empty()
        };
        if j < u.len() {
            lemma_body_segments(u, j + 1, syn);
        }
        match segment_component(seg, syn) {
            Some(c) => {
                assert(segment_text(c) =~= seg);
                assert forall|x: int| 0 <= x < segment_text(c).len() implies !syn.separates(
                    #[trigger] segment_text(c)[x],
                ) by {
                    assert(seg[x] == u[i + x]);
                }
                assert(is_segment(c, syn));
                assert forall|k: int| 0 <= k < body(u, i, syn).len() implies is_segment(
                    #[trigger] body(u, i, syn)[k],
                    syn,
                ) by {
                    if k > 0 {
                        assert(body(u, i, syn)[k] == rest[k - 1]);
                    }
                }
            },
            None => {},
        }
    }
}

} // verus!
