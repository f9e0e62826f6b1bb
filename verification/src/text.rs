//! ASCII case-insensitive comparison of menu labels.
use vstd::prelude::*;
use vstd::string::*;

verus! {

/// The code point of `c` after mapping ASCII `A..=Z` to `a..=z`; every
/// other character keeps its own code point.
pub open spec fn ascii_lower_code(c: char) -> u32 {
    let n = c as u32;
    if 65 <= n && n <= 90 {
        (n + 32) as u32
    } else {
        n
    }
}

/// Two character sequences match when they have the same length and agree
/// character by character once ASCII letters are folded to lower case.
pub open spec fn eq_ascii_nocase(a: Seq<char>, b: Seq<char>) -> bool {
    &&& a.len() == b.len()
    &&& forall|i: int| 0 <= i < a.len() ==> ascii_lower_code(#[trigger] a[i]) == ascii_lower_code(b[i])
}

fn lower_code(c: char) -> (r: u32)
    ensures
        r == ascii_lower_code(c),
{
    let n = c as u32;
    if 65 <= n && n <= 90 {
        n + 32
    } else {
        n
    }
}

/// Checks that two strings are an ASCII case-insensitive match.
pub fn eq_ignore_ascii_case(a: &str, b: &str) -> (r: bool)
    ensures
        r == eq_ascii_nocase(a@, b@),
{
    let n = a.unicode_len();
    let m = b.unicode_len();
    if n != m {
        return false;
    }
    let mut i: usize = 0;
    while i < n
        invariant
            n == a@.len(),
            m == b@.len(),
            n == m,
            i <= n,
            forall|j: int| 0 <= j < i ==> ascii_lower_code(#[trigger] a@[j]) == ascii_lower_code(b@[j]),
        decreases n - i,
    {
        let c = a.get_char(i);
        let d = b.get_char(i);
        if lower_code(c) != lower_code(d) {
            return false;
        }
        i = i + 1;
    }
    true
}

/// The code points of a label, with every ASCII capital letter written as
/// its small letter.
pub open spec fn ascii_lowercase_codes(a: Seq<char>) -> Seq<u32> {
    a.map_values(|c: char| if 'A' as u32 <= c as u32 && c as u32 <= 'Z' as u32 {
        (c as u32 + ('a' as u32 - 'A' as u32)) as u32
    } else {
        c as u32
    })
}

/// Two labels match exactly when they are equal once ASCII capitals are
/// written as small letters; in particular every label matches itself, and
/// matching is symmetric.
pub proof fn law_nocase_is_lowercase_equality(a: Seq<char>, b: Seq<char>)
    ensures
        eq_ascii_nocase(a, b) <==> ascii_lowercase_codes(a) == ascii_lowercase_codes(b),
        eq_ascii_nocase(a, a),
        eq_ascii_nocase(a, b) == eq_ascii_nocase(b, a),
{
    if eq_ascii_nocase(a, b) {
        assert(ascii_lowercase_codes(a) =~= ascii_lowercase_codes(b));
    }
    if ascii_lowercase_codes(a) == ascii_lowercase_codes(b) {
        assert(a.len() == ascii_lowercase_codes(a).len());
        assert(b.len() == ascii_lowercase_codes(b).len());
        assert forall|i: int| 0 <= i < a.len() implies ascii_lower_code(#[trigger] a[i])
            == ascii_lower_code(b[i]) by {
            assert(ascii_lowercase_codes(a)[i] == ascii_lowercase_codes(b)[i]);
        }
    }
}

} // verus!
