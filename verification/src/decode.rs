//! From separated text to a native path.
//!
//! The text is read character by character. Each occurrence of the
//! separator it was written with becomes the separator of the convention;
//! every other character is taken over as it is.
use crate::path::{main_separator, separator, CowPath, Path, PathBuf};
use crate::text::{has_no_slash, is_unicode, lossy, scalar, scalars, NativeStr, Unit};
use vstd::prelude::*;
use vstd::std_specs::iter::IteratorSpec;

verus! {

/// The unit that the character `c` becomes when `sep` is rewritten to the
/// separator of the convention.
pub open spec fn rewritten_char(c: char, sep: char, windows: bool) -> Unit {
    if c == sep {
        scalar(main_separator(windows))
    } else {
        scalar(c)
    }
}

/// The native text of `s`, with `sep` rewritten to the separator of the
/// convention.
pub open spec fn rewritten(s: Seq<char>, sep: char, windows: bool) -> Seq<Unit> {
    s.map_values(|c: char| rewritten_char(c, sep, windows))
}

/// Copies into `buf` the characters of `s` that come before position `k`,
/// which holds the first `sep`.
fn copy_before(s: &str, sep: char, buf: &mut Vec<Unit>, Ghost(k): Ghost<int>)
    requires
        0 <= k < s@.len(),
        s@[k] == sep,
        forall|j: int| 0 <= j < k ==> s@[j] != sep,
    ensures
        final(buf)@ == old(buf)@ + scalars(s@.take(k)),
{
    let mut it = s.chars();
    let ghost mut i: int = 0;
    loop
        invariant_except_break
            it.obeys_prophetic_iter_laws(),
            it.decrease() is Some,
            it.remaining() == s@.skip(i),
        invariant
            0 <= i <= k < s@.len(),
            s@[k] == sep,
            forall|j: int| 0 <= j < k ==> s@[j] != sep,
            buf@ == old(buf)@ + scalars(s@.take(i)),
        ensures
            i == k,
        decreases it.decrease()->0,
    {
        match it.next() {
            Some(c) => {
                if c == sep {
                    break;
                }
                proof {
                    assert(old(buf)@ + scalars(s@.take(i)).push(scalar(c)) =~= (old(buf)@
                        + scalars(s@.take(i))).push(scalar(c)));
                    i = i + 1;
                }
                buf.push(Unit::Scalar(c));
            },
            None => {
                break;
            },
        }
    }
}

/// Reads `s` as a native path, with each `sep` rewritten to the separator
/// of the convention. The text is borrowed if no character of it has to
/// change, and written anew otherwise.
pub fn str_to_path<'a, const WINDOWS: bool>(s: &'a str, sep: char) -> (r: CowPath<'a, WINDOWS>)
    ensures
        r@ == rewritten(s@, sep, WINDOWS),
        r is Borrowed <==> sep == main_separator(WINDOWS) || !s@.contains(sep),
        r is Borrowed ==> r == CowPath::Borrowed(Path::<'a, WINDOWS> { text: NativeStr::Text(s) }),
{
    let main = separator(WINDOWS);
    let mut buf: Vec<Unit> = Vec::new();
    for c in it: s.chars()
        invariant
            it.seq() == s@,
            main == main_separator(WINDOWS),
            buf@.len() == 0 <==> sep == main || !s@.take(it.index() as int).contains(sep),
            buf@.len() > 0 ==> buf@ == rewritten(s@.take(it.index() as int), sep, WINDOWS),
    {
        let ghost i = it.index() as int;
        proof {
            assert(s@.take(i + 1) =~= s@.take(i).push(c));
            lemma_rewritten_push(s@.take(i), c, sep, WINDOWS);
        }
        if c == sep && sep != main {
            if buf.len() == 0 {
                proof {
                    assert forall|j: int| 0 <= j < i implies s@[j] != sep by {
                        assert(s@.take(i)[j] == s@[j]);
                    }
                }
                copy_before(s, sep, &mut buf, Ghost(i));
            }
            buf.push(Unit::Scalar(main));
            assert(s@.take(i + 1)[i] == sep);
        } else if buf.len() > 0 {
            buf.push(Unit::Scalar(c));
        }
    }
    proof {
        assert(s@.take(s@.len() as int) =~= s@);
    }
    if buf.len() == 0 {
        CowPath::Borrowed(Path::new(s))
    } else {
        CowPath::Owned(PathBuf::from_units(buf))
    }
}

/// Reads `s` as an owned native path, with each `sep` rewritten to the
/// separator of the convention.
pub fn str_to_pathbuf<const WINDOWS: bool>(s: &str, sep: char) -> (r: PathBuf<WINDOWS>)
    ensures
        r@ == rewritten(s@, sep, WINDOWS),
{
    let main = separator(WINDOWS);
    let mut buf: Vec<Unit> = Vec::new();
    for c in it: s.chars()
        invariant
            it.seq() == s@,
            main == main_separator(WINDOWS),
            buf@ == rewritten(s@.take(it.index() as int), sep, WINDOWS),
    {
        proof {
            let i = it.index() as int;
            lemma_rewritten_push(s@.take(i), c, sep, WINDOWS);
        }
        buf.push(
            if c == sep {
                Unit::Scalar(main)
            } else {
                Unit::Scalar(c)
            },
        );
    }
    PathBuf::from_units(buf)
}

/// Rewriting goes character by character.
pub proof fn lemma_rewritten_push(s: Seq<char>, c: char, sep: char, windows: bool)
    ensures
        rewritten(s.push(c), sep, windows) == rewritten(s, sep, windows).push(
            rewritten_char(c, sep, windows),
        ),
{
}

/// Text leaves rewriting unchanged exactly if every separator in it already
/// is the one of the convention.
pub proof fn lemma_rewritten_unchanged(s: Seq<char>, sep: char, windows: bool)
    ensures
        rewritten(s, sep, windows) == scalars(s) <==> (sep == main_separator(windows)
            || !s.contains(sep)),
{
    let r = rewritten(s, sep, windows);
    if sep == main_separator(windows) || !s.contains(sep) {
        assert(r =~= scalars(s));
    } else {
        let i = choose|i: int| 0 <= i < s.len() && s[i] == sep;
        assert(r[i] != scalars(s)[i]);
    }
}

/// Text that is valid Unicode and holds no `/` comes back from its lossy
/// reading as it was.
pub proof fn lemma_rewritten_lossy(t: Seq<Unit>)
    requires
        is_unicode(t),
        has_no_slash(t),
    ensures
        rewritten(lossy(t), '/', true) == t,
{
}

/// `/` is rewritten to `\`.
pub proof fn lemma_rewritten_slash()
    ensures
        rewritten(seq!['/'], '/', true) == seq![Unit::Scalar('\\')],
        rewritten(seq!['.', '/'], '/', true) == seq![Unit::Scalar('.'), Unit::Scalar('\\')],
        rewritten(seq!['.'], '/', true) == seq![Unit::Scalar('.')],
        rewritten(Seq::<char>::empty(), '/', true) == Seq::<Unit>::empty(),
{
}

} // verus!
