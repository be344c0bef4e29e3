//! Decomposing native text into components, under either convention.
use crate::component::{views, Component, ComponentView, Syntax};
use crate::prefix::{
    has_implicit_root, has_sep, is_verbatim, prefix_len, scan_prefix, sep_at, starts_verbatim,
};
use crate::segment::{body, push_body, push_rooted_body, rooted_body};
use crate::text::Unit;
use vstd::prelude::*;

verus! {

/// The components of text under the Unix convention.
pub open spec fn unix_components(u: Seq<Unit>) -> Seq<ComponentView> {
    rooted_body(u, Syntax::Unix)
}

/// The syntax of what follows the prefix of Windows text.
pub open spec fn windows_syntax(u: Seq<Unit>) -> Syntax {
    if starts_verbatim(u) {
        Syntax::Verbatim
    } else {
        Syntax::Windows
    }
}

/// The components of text under the Windows convention.
///
/// A prefix, where there is one, comes first. The root follows it where a
/// separator does, and also after a device or a network share, which imply
/// one. Text without a prefix is read as under the Unix convention, but
/// that `\` separates as well.
pub open spec fn windows_components(u: Seq<Unit>) -> Seq<ComponentView> {
    let p = prefix_len(u);
    let syn = windows_syntax(u);
    if p > 0 {
        let head = seq![ComponentView::Prefix(u.take(p))];
        if sep_at(u, p) {
            head + seq![ComponentView::RootDir] + body(u, p + 1, syn)
        } else if has_implicit_root(u) {
            head + seq![ComponentView::RootDir] + body(u, p, syn)
        } else {
            head + body(u, p, syn)
        }
    } else {
        rooted_body(u, Syntax::Windows)
    }
}

/// The components of text under the convention that `windows` names.
pub open spec fn components(u: Seq<Unit>, windows: bool) -> Seq<ComponentView> {
    if windows {
        windows_components(u)
    } else {
        unix_components(u)
    }
}

/// Decomposes text under the Unix convention.
pub fn parse_unix(u: &[Unit]) -> (r: Vec<Component>)
    ensures
        views(r@) == unix_components(u@),
{
    let mut out: Vec<Component> = Vec::new();
    push_rooted_body(u, Syntax::Unix, &mut out);
    out
}

/// Decomposes text under the Windows convention.
pub fn parse_windows(u: &[Unit]) -> (r: Vec<Component>)
    ensures
        views(r@) == windows_components(u@),
{
    let mut out: Vec<Component> = Vec::new();
    let n: usize = u.len();
    let p = scan_prefix(u);
    if p > 0 {
        let syn = if is_verbatim(u) {
            Syntax::Verbatim
        } else {
            Syntax::Windows
        };
        let prefix = vstd::slice::slice_subrange(u, 0, p);
        out.push(Component::Prefix(vstd::slice::slice_to_vec(prefix)));
        if p < n && Syntax::Windows.is_separator(u[p]) {
            out.push(Component::RootDir);
            push_body(u, p + 1, syn, &mut out);
        } else if has_sep(u, 0) && !is_verbatim(u) {
            out.push(Component::RootDir);
            push_body(u, p, syn, &mut out);
        } else {
            push_body(u, p, syn, &mut out);
        }
    } else {
        push_rooted_body(u, Syntax::Windows, &mut out);
    }
    out
}

/// Decomposes text under the convention that `windows` names.
pub fn parse(u: &[Unit], windows: bool) -> (r: Vec<Component>)
    ensures
        views(r@) == components(u@, windows),
{
    if windows {
        parse_windows(u)
    } else {
        parse_unix(u)
    }
}

} // verus!
