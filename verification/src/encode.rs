//! From the components of a native path to slash text.
//!
//! Under the Windows convention a path is not text with one separator in
//! it: its components are walked in order and written out, each followed by
//! `/`. A prefix is written as it stands and gets no `/` after it, so that
//! the root that follows a drive gives `C:/` and not `C://`, and a name
//! that follows a drive stays relative to it, as in `C:foo`. A `/` at the
//! end is taken off again unless it is all there is. Under the Unix
//! convention the slash text of a path is its text.
use crate::component::{views, Component, ComponentView};
use crate::parse::components;
use crate::text::{is_unicode, lossy, pop_char, push_char, push_lossy, push_strict, Unit};
use vstd::prelude::*;

verus! {

/// What one component contributes to the slash text.
pub open spec fn piece(c: ComponentView) -> Seq<char> {
    match c {
        ComponentView::Prefix(t) => lossy(t),
        ComponentView::RootDir => seq!['/'],
        ComponentView::CurDir => seq!['.', '/'],
        ComponentView::ParentDir => seq!['.', '.', '/'],
        ComponentView::Normal(t) => lossy(t) + seq!['/'],
    }
}

/// The contributions of all components, one after the other.
pub open spec fn joined(cs: Seq<ComponentView>) -> Seq<char>
    decreases cs.len(),
{
    if cs.len() == 0 {
        Seq::empty()
    } else {
        joined(cs.drop_last()) + piece(cs.last())
    }
}

/// Text without the `/` at its end, unless the text is `/` alone.
pub open spec fn trimmed(b: Seq<char>) -> Seq<char> {
    if b.len() > 1 && b.last() == '/' {
        b.drop_last()
    } else {
        b
    }
}

/// Whether the text of a component, where it has any, is valid Unicode.
pub open spec fn component_is_unicode(c: ComponentView) -> bool {
    match c {
        ComponentView::Prefix(t) => is_unicode(t),
        ComponentView::Normal(t) => is_unicode(t),
        _ => true,
    }
}

/// Whether every component is valid Unicode.
pub open spec fn all_unicode(cs: Seq<ComponentView>) -> bool {
    forall|i: int| 0 <= i < cs.len() ==> component_is_unicode(#[trigger] cs[i])
}

/// The slash text of a list of components, with U+FFFD for each malformed
/// unit.
pub open spec fn walked(cs: Seq<ComponentView>) -> Seq<char> {
    trimmed(joined(cs))
}

/// The slash text of the native text `u`, with U+FFFD for each malformed
/// unit.
pub open spec fn slash_text(u: Seq<Unit>, windows: bool) -> Seq<char> {
    if windows {
        walked(components(u, true))
    } else {
        lossy(u)
    }
}

/// Whether the native text `u` has a slash text without loss.
pub open spec fn encodable(u: Seq<Unit>, windows: bool) -> bool {
    if windows {
        all_unicode(components(u, true))
    } else {
        is_unicode(u)
    }
}

/// Takes the `/` off the end of `buf`, unless `buf` is `/` alone.
pub fn trim(buf: &mut String)
    ensures
        final(buf)@ == trimmed(old(buf)@),
{
    match pop_char(buf) {
        Some(c) => {
            if c != '/' || buf.as_str().is_empty() {
                push_char(buf, c);
            }
        },
        None => {},
    }
}

/// Writes out the components in order, and fails on the first that is not
/// valid Unicode.
pub fn walk_strict(cs: &Vec<Component>) -> (r: Option<String>)
    ensures
        r is Some <==> all_unicode(views(cs@)),
        r matches Some(t) ==> t@ == walked(views(cs@)),
{
    let ghost vs = views(cs@);
    let mut buf = String::new();
    let n: usize = cs.len();
    let mut i: usize = 0;
    while i < n
        invariant
            vs == views(cs@),
            n == cs@.len(),
            i <= n,
            all_unicode(vs.take(i as int)),
            buf@ == joined(vs.take(i as int)),
        decreases n - i,
    {
        proof {
            assert(vs.take(i + 1).drop_last() =~= vs.take(i as int));
            assert(vs[i as int] == cs@[i as int]@);
        }
        match &cs[i] {
            Component::RootDir => {},
            Component::CurDir => {
                push_char(&mut buf, '.');
            },
            Component::ParentDir => {
                push_char(&mut buf, '.');
                push_char(&mut buf, '.');
            },
            Component::Prefix(prefix) => {
                if !push_strict(&mut buf, prefix.as_slice()) {
                    return None;
                }
                // A root that follows supplies the separator.
                i = i + 1;
                continue;
            },
            Component::Normal(name) => {
                if !push_strict(&mut buf, name.as_slice()) {
                    return None;
                }
            },
        }
        push_char(&mut buf, '/');
        i = i + 1;
    }
    proof {
        assert(vs.take(n as int) =~= vs);
    }
    trim(&mut buf);
    Some(buf)
}

/// Writes out the components in order, with U+FFFD for each malformed unit.
pub fn walk_lossy(cs: &Vec<Component>) -> (r: String)
    ensures
        r@ == walked(views(cs@)),
{
    let ghost vs = views(cs@);
    let mut buf = String::new();
    let n: usize = cs.len();
    let mut i: usize = 0;
    while i < n
        invariant
            vs == views(cs@),
            n == cs@.len(),
            i <= n,
            buf@ == joined(vs.take(i as int)),
        decreases n - i,
    {
        proof {
            assert(vs.take(i + 1).drop_last() =~= vs.take(i as int));
        }
        match &cs[i] {
            Component::RootDir => {},
            Component::CurDir => {
                push_char(&mut buf, '.');
            },
            Component::ParentDir => {
                push_char(&mut buf, '.');
                push_char(&mut buf, '.');
            },
            Component::Prefix(prefix) => {
                push_lossy(&mut buf, prefix.as_slice());
                // A root that follows supplies the separator.
                i = i + 1;
                continue;
            },
            Component::Normal(name) => {
                push_lossy(&mut buf, name.as_slice());
            },
        }
        push_char(&mut buf, '/');
        i = i + 1;
    }
    proof {
        assert(vs.take(n as int) =~= vs);
    }
    trim(&mut buf);
    buf
}

/// The contributions of two lists of components, one after the other, are
/// the contribution of the two lists as one.
pub proof fn lemma_joined_concat(a: Seq<ComponentView>, b: Seq<ComponentView>)
    ensures
        joined(a + b) == joined(a) + joined(b),
    decreases b.len(),
{
    if b.len() > 0 {
        lemma_joined_concat(a, b.drop_last());
        assert((a + b).drop_last() =~= a + b.drop_last());
    }
}

/// A single component contributes its piece.
pub proof fn lemma_joined_one(c: ComponentView)
    ensures
        joined(seq![c]) == piece(c),
{
    assert(joined(seq![c].drop_last()) =~= Seq::<char>::empty());
}

} // verus!
