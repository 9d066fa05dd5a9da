//! Building text: appending characters and decimal numbers to strings.

use vstd::prelude::*;
use vstd::string::StringExecFns;
use vstd::std_specs::iter::IteratorSpec;

verus! {

/// Appends a character to a string.
///
/// Trusted: calls `String::push`, which std documents as appending the
/// character to the end of the string.
#[verifier::external_body]
pub(crate) fn push_char(s: &mut String, c: char)
    ensures final(s)@ == old(s)@.push(c),
{
    s.push(c);
}

/// Appends a string slice to a string.
pub fn push_str(s: &mut String, t: &str)
    ensures final(s)@ == old(s)@ + t@,
{
    s.append(t);
}

/// A string holding one character.
pub fn char_string(c: char) -> (s: String)
    ensures s@ == seq![c],
{
    let mut s = String::new();
    push_char(&mut s, c);
    proof { assert(Seq::<char>::empty().push(c) =~= seq![c]); }
    s
}

/// The characters of a string slice.
pub fn chars_of(s: &str) -> (v: Vec<char>)
    ensures v@ == s@,
{
    broadcast use vstd::string::axiom_spec_iter, vstd::string::next_postcondition;
    let mut v: Vec<char> = Vec::new();
    let mut chars = s.chars();
    loop
        invariant
            v@ + IteratorSpec::remaining(&chars) == s@,
            IteratorSpec::obeys_prophetic_iter_laws(&chars),
        ensures v@ == s@,
        decreases s@.len() - v@.len(),
    {
        let ghost before = IteratorSpec::remaining(&chars);
        match chars.next() {
            Some(c) => {
                proof { assert(v@.push(c) + before.drop_first() =~= v@ + before); }
                v.push(c);
            },
            None => {
                proof { assert(v@ + before =~= v@); }
                break;
            },
        }
    }
    v
}

/// The character of a decimal digit.
pub open spec fn digit_char(d: int) -> char {
    ((d + 48) as u8) as char
}

/// The decimal digits of a natural number, most significant first.
pub open spec fn decimal(n: nat) -> Seq<char>
    decreases n,
{
    if n < 10 { seq![digit_char(n as int)] } else { decimal(n / 10).push(digit_char((n % 10) as int)) }
}

/// A number in decimal, with a minus sign when negative.
pub open spec fn signed_decimal(i: int) -> Seq<char> {
    if i < 0 { seq!['-'] + decimal((-i) as nat) } else { decimal(i as nat) }
}

/// Appends the decimal digits of `n`.
pub fn push_u64(s: &mut String, n: u64)
    ensures final(s)@ == old(s)@ + decimal(n as nat),
    decreases n,
{
    if n >= 10 {
        push_u64(s, n / 10);
    }
    let d = (n % 10) as u8;
    push_char(s, (d + 48) as char);
    proof {
        if n >= 10 {
            assert(old(s)@ + decimal(n as nat) =~= old(s)@ + decimal((n / 10) as nat) + seq![digit_char((n % 10) as int)]);
        } else {
            assert(old(s)@ + decimal(n as nat) =~= old(s)@.push(digit_char(n as int)));
        }
    }
}

/// Appends a signed number in decimal.
pub fn push_i64(s: &mut String, n: i64)
    ensures final(s)@ == old(s)@ + signed_decimal(n as int),
{
    if n < 0 {
        push_char(s, '-');
        let magnitude: u64 = if n == i64::MIN { 0x8000_0000_0000_0000u64 } else { (-n) as u64 };
        let ghost mid = s@;
        push_u64(s, magnitude);
        proof {
            assert(old(s)@ + signed_decimal(n as int) =~= old(s)@.push('-') + decimal(magnitude as nat));
        }
    } else {
        push_u64(s, n as u64);
    }
}

/// A number in decimal.
pub fn u64_string(n: u64) -> (s: String)
    ensures s@ == decimal(n as nat),
{
    let mut s = String::new();
    push_u64(&mut s, n);
    proof { assert(Seq::<char>::empty() + decimal(n as nat) =~= decimal(n as nat)); }
    s
}

/// A signed number in decimal.
pub fn i64_string(n: i64) -> (s: String)
    ensures s@ == signed_decimal(n as int),
{
    let mut s = String::new();
    push_i64(&mut s, n);
    proof { assert(Seq::<char>::empty() + signed_decimal(n as int) =~= signed_decimal(n as int)); }
    s
}

/// Whether two texts are the same.
pub fn text_equals(a: &str, b: &str) -> (r: bool)
    ensures r == (a@ == b@),
{
    let x = chars_of(a);
    let y = chars_of(b);
    if x.len() != y.len() {
        proof { assert(x@.len() != y@.len()); }
        return false;
    }
    let mut i: usize = 0;
    while i < x.len()
        invariant
            i <= x@.len(),
            x@ == a@,
            y@ == b@,
            x@.len() == y@.len(),
            forall|j: int| 0 <= j < i ==> x@[j] == y@[j],
        decreases x@.len() - i,
    {
        if x[i] != y[i] {
            proof { assert(x@[i as int] != y@[i as int]); }
            return false;
        }
        i = i + 1;
    }
    proof { assert(x@ =~= y@); }
    true
}

} // verus!
