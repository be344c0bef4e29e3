//! The structure of a native path: what its text decomposes into.
//!
//! A path is read as a sequence of components. Separators only delimit them:
//! they are never part of one, and a run of separators, or one at the end,
//! leaves no trace in the sequence. Two paths whose components name the
//! same are the same path, whatever their text.
use crate::text::Unit;
use vstd::prelude::*;

verus! {

/// One component of a native path, as a mathematical value.
pub enum ComponentView {
    /// A prefix that only the Windows convention knows: a drive, a network
    /// share, a device, or a verbatim form. Its text is kept as it was
    /// written and never looked into.
    Prefix(Seq<Unit>),
    /// The root directory.
    RootDir,
    /// The current directory, `.`.
    CurDir,
    /// The parent directory, `..`.
    ParentDir,
    /// The name of a file or directory.
    Normal(Seq<Unit>),
}

/// One component of a native path.
#[derive(PartialEq, Eq, Debug)]
pub enum Component {
    /// A prefix that only the Windows convention knows, as it was written.
    Prefix(Vec<Unit>),
    /// The root directory.
    RootDir,
    /// The current directory, `.`.
    CurDir,
    /// The parent directory, `..`.
    ParentDir,
    /// The name of a file or directory.
    Normal(Vec<Unit>),
}

impl View for Component {
    type V = ComponentView;

    open spec fn view(&self) -> ComponentView {
        match self {
            Component::Prefix(t) => ComponentView::Prefix(t@),
            Component::RootDir => ComponentView::RootDir,
            Component::CurDir => ComponentView::CurDir,
            Component::ParentDir => ComponentView::ParentDir,
            Component::Normal(t) => ComponentView::Normal(t@),
        }
    }
}

/// The mathematical values of a list of components.
pub open spec fn views(cs: Seq<Component>) -> Seq<ComponentView> {
    cs.map_values(|c: Component| c@)
}

/// How the text after a prefix and a root is cut into components.
#[derive(Clone, Copy, PartialEq, Eq, Structural, Debug)]
pub enum Syntax {
    /// `/` separates; a `.` between separators is dropped.
    Unix,
    /// `\` and `/` both separate; a `.` between separators is dropped.
    Windows,
    /// Only `\` separates, and a `.` between separators is kept: the
    /// syntax after a verbatim prefix.
    Verbatim,
}

impl Syntax {
    /// Whether `u` is a separator under this syntax.
    pub open spec fn separates(self, u: Unit) -> bool {
        match self {
            Syntax::Unix => u == Unit::Scalar('/'),
            Syntax::Windows => u == Unit::Scalar('/') || u == Unit::Scalar('\\'),
            Syntax::Verbatim => u == Unit::Scalar('\\'),
        }
    }

    /// Whether a `.` between separators is a component of its own.
    pub open spec fn keeps_cur_dir(self) -> bool {
        self is Verbatim
    }

    /// Tests whether `u` is a separator under this syntax.
    pub fn is_separator(self, u: Unit) -> (b: bool)
        ensures
            b == self.separates(u),
    {
        match self {
            Syntax::Unix => u == Unit::Scalar('/'),
            Syntax::Windows => u == Unit::Scalar('/') || u == Unit::Scalar('\\'),
            Syntax::Verbatim => u == Unit::Scalar('\\'),
        }
    }
}

} // verus!
