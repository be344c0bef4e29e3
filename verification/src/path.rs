//! Native paths: borrowed, owned, and either of the two.
//!
//! Each type takes the convention it follows as a constant parameter,
//! `false` for Unix and `true` for Windows. A path is its text; what the
//! text means is its components, and two paths are equal when their
//! components name the same.
use crate::component::{views, Component};
use crate::name::{path_names, same_path};
use crate::parse::{components, parse};
use crate::text::{scalars, str_to_units, NativeStr, Unit};
use vstd::prelude::*;
use vstd::std_specs::cmp::PartialEqSpecImpl;
use vstd::std_specs::convert::FromSpecImpl;

verus! {

/// The separator of the convention that `windows` names.
pub open spec fn main_separator(windows: bool) -> char {
    if windows {
        '\\'
    } else {
        '/'
    }
}

/// The separator of the convention that `windows` names.
pub fn separator(windows: bool) -> (c: char)
    ensures
        c == main_separator(windows),
{
    if windows {
        '\\'
    } else {
        '/'
    }
}

/// A borrowed native path.
#[derive(Clone, Copy, Debug)]
pub struct Path<'a, const WINDOWS: bool> {
    /// The text of the path.
    pub text: NativeStr<'a>,
}

/// An owned native path.
#[derive(Debug)]
pub struct PathBuf<const WINDOWS: bool> {
    /// The text of the path.
    pub units: Vec<Unit>,
}

/// A native path that is either borrowed from the text it was made of, or
/// owned.
#[derive(Debug)]
pub enum CowPath<'a, const WINDOWS: bool> {
    /// The path is the text it was made of, unchanged.
    Borrowed(Path<'a, WINDOWS>),
    /// The path was written anew.
    Owned(PathBuf<WINDOWS>),
}

/// A borrowed path of the Unix convention.
pub type UnixPath<'a> = Path<'a, false>;

/// A borrowed path of the Windows convention.
pub type WindowsPath<'a> = Path<'a, true>;

/// An owned path of the Unix convention.
pub type UnixPathBuf = PathBuf<false>;

/// An owned path of the Windows convention.
pub type WindowsPathBuf = PathBuf<true>;

/// A borrowed or owned path of the Unix convention.
pub type UnixCowPath<'a> = CowPath<'a, false>;

/// A borrowed or owned path of the Windows convention.
pub type WindowsCowPath<'a> = CowPath<'a, true>;

impl<'a, const WINDOWS: bool> View for Path<'a, WINDOWS> {
    type V = Seq<Unit>;

    open spec fn view(&self) -> Seq<Unit> {
        self.text@
    }
}

impl<const WINDOWS: bool> View for PathBuf<WINDOWS> {
    type V = Seq<Unit>;

    open spec fn view(&self) -> Seq<Unit> {
        self.units@
    }
}

impl<'a, const WINDOWS: bool> View for CowPath<'a, WINDOWS> {
    type V = Seq<Unit>;

    open spec fn view(&self) -> Seq<Unit> {
        match self {
            CowPath::Borrowed(p) => p@,
            CowPath::Owned(p) => p@,
        }
    }
}

impl<'a, const WINDOWS: bool> Path<'a, WINDOWS> {
    /// The path that a string spells.
    pub fn new(s: &'a str) -> (p: Self)
        ensures
            p == (Path::<'a, WINDOWS> { text: NativeStr::Text(s) }),
            p@ == scalars(s@),
    {
        Path { text: NativeStr::Text(s) }
    }

    /// The path that platform text spells.
    pub fn from_native(text: NativeStr<'a>) -> (p: Self)
        ensures
            p == (Path::<'a, WINDOWS> { text }),
            p@ == text@,
    {
        Path { text }
    }

    /// The text of this path.
    pub fn as_native(&self) -> (t: NativeStr<'a>)
        ensures
            t == self.text,
    {
        self.text
    }

    /// The components of this path.
    pub fn components(&self) -> (r: Vec<Component>)
        ensures
            views(r@) == components(self@, WINDOWS),
    {
        let units = self.text.to_units();
        parse(units.as_slice(), WINDOWS)
    }

    /// An owned path with the same text.
    pub fn to_path_buf(&self) -> (p: PathBuf<WINDOWS>)
        ensures
            p@ == self@,
    {
        PathBuf { units: self.text.to_units() }
    }
}

impl<const WINDOWS: bool> PathBuf<WINDOWS> {
    /// The empty path.
    pub fn new() -> (p: Self)
        ensures
            p@ == Seq::<Unit>::empty(),
    {
        PathBuf { units: Vec::new() }
    }

    /// The path that platform text spells.
    pub fn from_units(units: Vec<Unit>) -> (p: Self)
        ensures
            p@ == units@,
    {
        PathBuf { units }
    }

    /// This path, borrowed.
    pub fn as_path(&self) -> (p: Path<'_, WINDOWS>)
        ensures
            p@ == self@,
            p.text is Units,
    {
        Path { text: NativeStr::Units(self.units.as_slice()) }
    }

    /// The components of this path.
    pub fn components(&self) -> (r: Vec<Component>)
        ensures
            views(r@) == components(self@, WINDOWS),
    {
        parse(self.units.as_slice(), WINDOWS)
    }
}

impl<'a, const WINDOWS: bool> CowPath<'a, WINDOWS> {
    /// Whether this path is borrowed.
    pub fn is_borrowed(&self) -> (b: bool)
        ensures
            b == (self is Borrowed),
    {
        match self {
            CowPath::Borrowed(_) => true,
            CowPath::Owned(_) => false,
        }
    }

    /// This path, borrowed.
    pub fn as_path(&self) -> (p: Path<'_, WINDOWS>)
        ensures
            p@ == self@,
    {
        match self {
            CowPath::Borrowed(p) => *p,
            CowPath::Owned(p) => p.as_path(),
        }
    }

    /// This path, owned: copied if it was borrowed.
    pub fn into_owned(self) -> (p: PathBuf<WINDOWS>)
        ensures
            p@ == self@,
    {
        match self {
            CowPath::Borrowed(p) => p.to_path_buf(),
            CowPath::Owned(p) => p,
        }
    }
}

/// Tests whether the text of a path ends with the separator of its
/// convention.
pub fn ends_with_main_sep<const WINDOWS: bool>(p: &Path<'_, WINDOWS>) -> (r: bool)
    ensures
        r == (p@.len() > 0 && p@.last() == Unit::Scalar(main_separator(WINDOWS))),
{
    let units = p.text.to_units();
    let n: usize = units.len();
    n > 0 && units[n - 1].eq_char(separator(WINDOWS))
}

impl<'a, const WINDOWS: bool> PartialEq for Path<'a, WINDOWS> {
    fn eq(&self, other: &Self) -> (r: bool) {
        let a = self.text.to_units();
        let b = other.text.to_units();
        same_path(a.as_slice(), b.as_slice(), WINDOWS)
    }
}

impl<'a, const WINDOWS: bool> PartialEqSpecImpl for Path<'a, WINDOWS> {
    open spec fn obeys_eq_spec() -> bool {
        true
    }

    open spec fn eq_spec(&self, other: &Self) -> bool {
        path_names(self@, WINDOWS) == path_names(other@, WINDOWS)
    }
}

impl<const WINDOWS: bool> PartialEq for PathBuf<WINDOWS> {
    fn eq(&self, other: &Self) -> (r: bool) {
        same_path(self.units.as_slice(), other.units.as_slice(), WINDOWS)
    }
}

impl<const WINDOWS: bool> PartialEqSpecImpl for PathBuf<WINDOWS> {
    open spec fn obeys_eq_spec() -> bool {
        true
    }

    open spec fn eq_spec(&self, other: &Self) -> bool {
        path_names(self@, WINDOWS) == path_names(other@, WINDOWS)
    }
}

impl<const WINDOWS: bool> Clone for PathBuf<WINDOWS> {
    fn clone(&self) -> (p: Self)
        ensures
            p@ == self@,
    {
        PathBuf { units: self.units.clone() }
    }
}

impl<'a, const WINDOWS: bool> From<&'a str> for PathBuf<WINDOWS> {
    fn from(s: &'a str) -> (p: Self)
        ensures
            p@ == scalars(s@),
    {
        PathBuf { units: str_to_units(s) }
    }
}

// No spec function can make a value that owns a vector, so the conversion
// says what it gives in its own `ensures`.
impl<'a, const WINDOWS: bool> FromSpecImpl<&'a str> for PathBuf<WINDOWS> {
    open spec fn obeys_from_spec() -> bool {
        false
    }

    open spec fn from_spec(s: &'a str) -> Self {
        arbitrary()
    }
}

} // verus!
