//! Small executable helpers over strings and characters.

use vstd::prelude::*;
use vstd::string::StrSliceExecFns;

verus! {

/// Compares two string slices character by character.
pub fn str_eq(a: &str, b: &str) -> (r: bool)
    ensures
        r == (a@ == b@),
{
    let alen = a.unicode_len();
    let blen = b.unicode_len();
    if alen != blen {
        assert(a@.len() != b@.len());
        return false;
    }
    for i in 0..alen
        invariant
            alen == a@.len(),
            blen == b@.len(),
            alen == blen,
            forall|j: int| 0 <= j < i ==> a@[j] == b@[j],
    {
        if a.get_char(i) != b.get_char(i) {
            return false;
        }
    }
    assert(a@ =~= b@);
    true
}

/// True when `p` is a prefix of `s`.
pub open spec fn has_prefix(s: Seq<char>, p: Seq<char>) -> bool {
    p.len() <= s.len() && s.subrange(0, p.len() as int) == p
}

/// Tests whether the string starts with the given prefix.
pub fn starts_with_str(s: &str, p: &str) -> (r: bool)
    ensures
        r == has_prefix(s@, p@),
{
    let slen = s.unicode_len();
    let plen = p.unicode_len();
    if plen > slen {
        return false;
    }
    let head = s.substring_char(0, plen);
    str_eq(head, p)
}

/// Relies on std's String::push: appends one character.
#[verifier::external_body]
pub fn push_char(s: &mut String, c: char)
    ensures
        final(s)@ == old(s)@.push(c),
{
    s.push(c)
}

/// The character for one decimal digit.
pub open spec fn digit_char(d: nat) -> char {
    ((d + 48) as u8) as char
}

/// The decimal representation of a number, most significant digit first.
pub open spec fn dec_spec(n: nat) -> Seq<char>
    decreases n,
{
    if n < 10 {
        seq![digit_char(n)]
    } else {
        dec_spec(n / 10).push(digit_char(n % 10))
    }
}

/// Appends the decimal representation of `n`.
pub fn push_decimal(s: &mut String, n: usize)
    ensures
        final(s)@ == old(s)@ + dec_spec(n as nat),
    decreases n,
{
    if n >= 10 {
        push_decimal(s, n / 10);
    }
    let d: u8 = (n % 10) as u8;
    let c: char = (48 + d) as char;
    proof {
        assert(c == digit_char((n % 10) as nat));
    }
    push_char(s, c);
    proof {
        assert(s@ =~= old(s)@ + dec_spec(n as nat));
    }
}

} // verus!
