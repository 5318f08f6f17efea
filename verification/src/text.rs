//! Character-level helpers: string comparison over the character view, and
//! the casing test used by the resolver's diagnostic heuristic.

use vstd::prelude::*;
use vstd::string::StrSliceExecFns;

verus! {

/// True if the name starts with an ASCII lowercase letter. This backs a
/// best-effort diagnostic heuristic (a lowercase-leading name was probably
/// meant as a variable), not a soundness-bearing check. Reading
/// "lowercase" as ASCII `a`-`z` is deliberate: it keeps the classifier a
/// fully stated function of the characters, at the price of sending a
/// name leading with a non-ASCII lowercase letter to the missing-item
/// diagnostic instead.
pub open spec fn is_lowercase_leading(name: Seq<char>) -> bool {
    name.len() > 0 && 'a' <= name[0] && name[0] <= 'z'
}

/// Decide [`is_lowercase_leading`] for a string.
pub fn lowercase_leading(name: &str) -> (r: bool)
    ensures
        r == is_lowercase_leading(name@),
{
    let n = name.unicode_len();
    if n == 0 {
        false
    } else {
        let c = name.get_char(0);
        'a' <= c && c <= 'z'
    }
}

/// Compare two strings by their character sequences.
pub fn str_eq(a: &str, b: &str) -> (r: bool)
    ensures
        r == (a@ == b@),
{
    let alen = a.unicode_len();
    let blen = b.unicode_len();
    if alen != blen {
        return false;
    }
    let mut i: usize = 0;
    while i < alen
        invariant
            i <= alen,
            alen == a@.len(),
            alen == b@.len(),
            forall|k: int| 0 <= k < i ==> a@[k] == b@[k],
        decreases alen - i,
    {
        if a.get_char(i) != b.get_char(i) {
            return false;
        }
        i = i + 1;
    }
    proof {
        assert(a@ =~= b@);
    }
    true
}

} // verus!
