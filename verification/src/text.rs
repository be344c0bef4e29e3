//! Platform text: what a native path is made of.
//!
//! Native paths need not be valid Unicode. Platform text is therefore a
//! sequence of units, each either a Unicode scalar value or a malformed unit
//! (on Windows an unpaired surrogate, on Unix a byte sequence that decodes to
//! nothing). Turning platform text into Unicode text is either strict, which
//! fails on the first malformed unit, or lossy, which puts U+FFFD in the
//! place of each.
use std::borrow::Cow;
use vstd::prelude::*;

verus! {

/// The character that takes the place of a malformed unit.
pub const REPLACEMENT_CHARACTER: char = '\u{FFFD}';

/// One unit of platform text.
#[derive(Clone, Copy, PartialEq, Eq, Structural, Debug)]
pub enum Unit {
    /// A Unicode scalar value.
    Scalar(char),
    /// A unit that is not valid Unicode, with the value the platform stores.
    Malformed(u32),
}

impl Unit {
    /// The character this unit becomes under the lossy policy.
    pub open spec fn lossy(self) -> char {
        match self {
            Unit::Scalar(c) => c,
            Unit::Malformed(_) => REPLACEMENT_CHARACTER,
        }
    }

    /// Whether this unit is the scalar value `c`.
    pub open spec fn is_char(self, c: char) -> bool {
        self == Unit::Scalar(c)
    }

    /// The lossy reading of this unit.
    pub fn to_char_lossy(self) -> (c: char)
        ensures
            c == self.lossy(),
    {
        match self {
            Unit::Scalar(c) => c,
            Unit::Malformed(_) => REPLACEMENT_CHARACTER,
        }
    }

    /// Tests this unit against a character.
    pub fn eq_char(self, c: char) -> (b: bool)
        ensures
            b == self.is_char(c),
    {
        match self {
            Unit::Scalar(d) => d == c,
            Unit::Malformed(_) => false,
        }
    }
}

/// The unit that holds the scalar value `c`.
pub open spec fn scalar(c: char) -> Unit {
    Unit::Scalar(c)
}

/// Unicode text as platform text: every character a scalar unit.
pub open spec fn scalars(s: Seq<char>) -> Seq<Unit> {
    s.map_values(|c: char| scalar(c))
}

/// Platform text read lossily: one character per unit, U+FFFD for each
/// malformed one.
pub open spec fn lossy(u: Seq<Unit>) -> Seq<char> {
    u.map_values(|x: Unit| x.lossy())
}

/// Whether platform text is valid Unicode, that is, holds no malformed unit.
pub open spec fn is_unicode(u: Seq<Unit>) -> bool {
    forall|i: int| 0 <= i < u.len() ==> u[i] is Scalar
}

/// Whether text holds no `/`.
pub open spec fn has_no_slash(t: Seq<Unit>) -> bool {
    forall|i: int| 0 <= i < t.len() ==> t[i] != Unit::Scalar('/')
}

/// Platform text of Unicode text grows with it, unit by character.
pub proof fn lemma_scalars_push(s: Seq<char>, c: char)
    ensures
        scalars(s.push(c)) == scalars(s).push(Unit::Scalar(c)),
{
}

/// Appends one character to a string.
///
/// Stands for `String::push`: afterwards the string holds what it held
/// before, followed by `c`.
#[verifier::external_body]
pub(crate) fn push_char(buf: &mut String, c: char)
    ensures
        final(buf)@ == old(buf)@.push(c),
{
    buf.push(c);
}

/// Removes the last character of a string and returns it.
///
/// Stands for `String::pop`: an empty string is left as it is and gives
/// `None`; otherwise the string loses its last character, which is returned.
#[verifier::external_body]
pub(crate) fn pop_char(buf: &mut String) -> (c: Option<char>)
    ensures
        old(buf)@.len() == 0 ==> c is None && final(buf)@ == old(buf)@,
        old(buf)@.len() > 0 ==> c == Some(old(buf)@.last()) && final(buf)@ == old(buf)@.drop_last(),
{
    buf.pop()
}

/// Tests whether two pieces of platform text are the same, unit by unit.
pub fn same_units(a: &[Unit], b: &[Unit]) -> (r: bool)
    ensures
        r == (a@ == b@),
{
    let n: usize = a.len();
    if n != b.len() {
        return false;
    }
    let mut i: usize = 0;
    while i < n
        invariant
            n == a@.len(),
            n == b@.len(),
            i <= n,
            a@.take(i as int) == b@.take(i as int),
        decreases n - i,
    {
        if a[i] != b[i] {
            return false;
        }
        i = i + 1;
    }
    proof {
        assert(a@.take(n as int) =~= a@);
        assert(b@.take(n as int) =~= b@);
    }
    true
}

/// The platform text of a string.
pub fn str_to_units(s: &str) -> (r: Vec<Unit>)
    ensures
        r@ == scalars(s@),
{
    let mut out: Vec<Unit> = Vec::new();
    for c in it: s.chars()
        invariant
            it.seq() == s@,
            out@ == scalars(s@.take(it.index() as int)),
    {
        proof {
            let i = it.index() as int;
            lemma_scalars_push(s@.take(i), c);
        }
        out.push(Unit::Scalar(c));
    }
    out
}

/// Appends the lossy reading of platform text to a string.
pub fn push_lossy(buf: &mut String, u: &[Unit])
    ensures
        final(buf)@ == old(buf)@ + lossy(u@),
{
    let n: usize = u.len();
    let mut i: usize = 0;
    while i < n
        invariant
            n == u@.len(),
            i <= n,
            buf@ == old(buf)@ + lossy(u@.take(i as int)),
        decreases n - i,
    {
        push_char(buf, u[i].to_char_lossy());
        i = i + 1;
    }
}

/// Tests whether platform text is valid Unicode.
pub fn all_scalar(u: &[Unit]) -> (ok: bool)
    ensures
        ok == is_unicode(u@),
{
    let n: usize = u.len();
    let mut i: usize = 0;
    while i < n
        invariant
            n == u@.len(),
            i <= n,
            forall|k: int| 0 <= k < i ==> u@[k] is Scalar,
        decreases n - i,
    {
        match u[i] {
            Unit::Scalar(_) => {},
            Unit::Malformed(_) => {
                return false;
            },
        }
        i = i + 1;
    }
    true
}

/// Appends platform text to a string if it is valid Unicode, and leaves the
/// string as it is if not. Returns whether the text was valid.
pub fn push_strict(buf: &mut String, u: &[Unit]) -> (ok: bool)
    ensures
        ok == is_unicode(u@),
        ok ==> final(buf)@ == old(buf)@ + lossy(u@),
        !ok ==> final(buf)@ == old(buf)@,
{
    if all_scalar(u) {
        push_lossy(buf, u);
        true
    } else {
        false
    }
}

/// Platform text that is borrowed: either Unicode text, or a slice of units.
#[derive(Clone, Copy, Debug)]
pub enum NativeStr<'a> {
    /// Text that is known to be valid Unicode.
    Text(&'a str),
    /// Text given unit by unit, malformed units included.
    Units(&'a [Unit]),
}

impl<'a> View for NativeStr<'a> {
    type V = Seq<Unit>;

    open spec fn view(&self) -> Seq<Unit> {
        match self {
            NativeStr::Text(s) => scalars(s@),
            NativeStr::Units(u) => u@,
        }
    }
}

impl<'a> NativeStr<'a> {
    /// The units of this text, copied out.
    pub fn to_units(&self) -> (r: Vec<Unit>)
        ensures
            r@ == self@,
    {
        match self {
            NativeStr::Text(s) => str_to_units(s),
            NativeStr::Units(u) => vstd::slice::slice_to_vec(u),
        }
    }

    /// This text as Unicode text, if it is valid Unicode.
    ///
    /// Text that was given as a string is handed back as it is, borrowed.
    pub fn to_str(&self) -> (r: Option<Cow<'a, str>>)
        ensures
            r is Some <==> is_unicode(self@),
            r matches Some(t) ==> t@ == lossy(self@) && (t is Borrowed <==> self is Text),
            self matches NativeStr::Text(s) ==> r == Some(Cow::<'a, str>::Borrowed(*s)),
    {
        match self {
            NativeStr::Text(s) => {
                Some(Cow::Borrowed(*s))
            },
            NativeStr::Units(u) => {
                let mut buf = String::new();
                if push_strict(&mut buf, u) {
                    Some(Cow::Owned(buf))
                } else {
                    None
                }
            },
        }
    }

    /// This text as Unicode text, with U+FFFD for each malformed unit.
    ///
    /// Text that was given as a string is handed back as it is, borrowed.
    pub fn to_string_lossy(&self) -> (r: Cow<'a, str>)
        ensures
            r@ == lossy(self@),
            r is Borrowed <==> self is Text,
            self matches NativeStr::Text(s) ==> r == Cow::<'a, str>::Borrowed(*s),
    {
        match self {
            NativeStr::Text(s) => {
                Cow::Borrowed(*s)
            },
            NativeStr::Units(u) => {
                let mut buf = String::new();
                push_lossy(&mut buf, u);
                Cow::Owned(buf)
            },
        }
    }
}

} // verus!
