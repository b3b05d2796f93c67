//! Character-by-character string comparison, plain and ASCII
//! case-insensitive.

use vstd::prelude::*;

verus! {

/// The code point of `c`, with an ASCII capital letter folded to lower
/// case.
pub open spec fn spec_lower_code(c: char) -> int {
    if 'A' as int <= c as int <= 'Z' as int {
        c as int + 32
    } else {
        c as int
    }
}

/// Whether two characters match ignoring ASCII case.
pub open spec fn spec_char_eq_ic(a: char, b: char) -> bool {
    spec_lower_code(a) == spec_lower_code(b)
}

/// Whether `a` and `b` match ignoring ASCII case, character by
/// character.
pub open spec fn spec_eq_ignore_ascii_case(a: Seq<char>, b: Seq<char>) -> bool {
    a.len() == b.len() && forall|i: int|
        0 <= i < a.len() ==> #[trigger] spec_char_eq_ic(a[i], b[i])
}

/// Whether `a` and `b` hold the same characters.
pub fn str_eq(a: &str, b: &str) -> (r: bool)
    ensures
        r == (a@ == b@),
{
    let na = a.unicode_len();
    let nb = b.unicode_len();
    if na != nb {
        return false;
    }
    let mut i: usize = 0;
    while i < na
        invariant
            na == a@.len(),
            na == b@.len(),
            i <= na,
            forall|k: int| 0 <= k < i ==> a@[k] == b@[k],
        decreases na - i,
    {
        if a.get_char(i) != b.get_char(i) {
            return false;
        }
        i += 1;
    }
    proof {
        assert(a@ =~= b@);
    }
    true
}

/// Whether `a` and `b` match ignoring ASCII case, exactly as
/// `spec_eq_ignore_ascii_case` states it.
pub fn str_eq_ignore_case(a: &str, b: &str) -> (r: bool)
    ensures
        r == spec_eq_ignore_ascii_case(a@, b@),
{
    let na = a.unicode_len();
    let nb = b.unicode_len();
    if na != nb {
        return false;
    }
    let mut i: usize = 0;
    while i < na
        invariant
            na == a@.len(),
            na == b@.len(),
            i <= na,
            forall|k: int| 0 <= k < i ==> #[trigger] spec_char_eq_ic(a@[k], b@[k]),
        decreases na - i,
    {
        let ca = a.get_char(i) as u32;
        let cb = b.get_char(i) as u32;
        let fa = if ca >= 65 && ca <= 90 {
            ca + 32
        } else {
            ca
        };
        let fb = if cb >= 65 && cb <= 90 {
            cb + 32
        } else {
            cb
        };
        if fa != fb {
            proof {
                assert(!spec_char_eq_ic(a@[i as int], b@[i as int]));
            }
            return false;
        }
        i += 1;
    }
    true
}

} // verus!
