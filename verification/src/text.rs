//! Decimal notation of integers and the small string helpers the rest of the
//! library builds its messages and identifiers with.

use vstd::prelude::*;
use vstd::string::*;

verus! {

/// ASCII code of the decimal digit `d` (`0 <= d < 10`).
pub open spec fn digit_byte(d: nat) -> u8 {
    (48 + d) as u8
}

/// Decimal notation of `n`: no sign, no leading zeros, at least one digit.
pub open spec fn decimal_bytes(n: nat) -> Seq<u8>
    decreases n,
{
    if n < 10 {
        seq![digit_byte(n)]
    } else {
        decimal_bytes(n / 10).push(digit_byte(n % 10))
    }
}

/// Decimal notation of a signed integer: a `-` in front of negative values.
pub open spec fn signed_decimal_bytes(n: int) -> Seq<u8> {
    if n < 0 {
        seq![45u8] + decimal_bytes((-n) as nat)
    } else {
        decimal_bytes(n as nat)
    }
}

/// The characters that a sequence of ASCII bytes stands for.
pub open spec fn ascii_chars(b: Seq<u8>) -> Seq<char> {
    b.map_values(|x: u8| x as char)
}

/// Every byte is 7-bit ASCII.
pub open spec fn all_ascii(b: Seq<u8>) -> bool {
    forall|i: int| 0 <= i < b.len() ==> #[trigger] b[i] < 128
}

pub proof fn lemma_decimal_ascii(n: nat)
    ensures
        all_ascii(decimal_bytes(n)),
        decimal_bytes(n).len() >= 1,
    decreases n,
{
    if n >= 10 {
        lemma_decimal_ascii(n / 10);
    }
}

pub proof fn lemma_signed_decimal_ascii(n: int)
    ensures
        all_ascii(signed_decimal_bytes(n)),
{
    if n < 0 {
        lemma_decimal_ascii((-n) as nat);
        assert(all_ascii(signed_decimal_bytes(n))) by {
            let s = signed_decimal_bytes(n);
            assert forall|i: int| 0 <= i < s.len() implies #[trigger] s[i] < 128 by {
                if i > 0 {
                    assert(s[i] == decimal_bytes((-n) as nat)[i - 1]);
                }
            }
        }
    } else {
        lemma_decimal_ascii(n as nat);
    }
}

/// Decimal notation of an unsigned integer, as std's `Display` writes it.
pub fn decimal_u64(n: u64) -> (out: Vec<u8>)
    ensures
        out@ == decimal_bytes(n as nat),
    decreases n,
{
    if n < 10 {
        let mut v: Vec<u8> = Vec::new();
        v.push(48u8 + n as u8);
        v
    } else {
        let mut v = decimal_u64(n / 10);
        v.push(48u8 + (n % 10) as u8);
        v
    }
}

/// Decimal notation of a signed integer, as std's `Display` writes it.
pub fn decimal_i64(n: i64) -> (out: Vec<u8>)
    ensures
        out@ == signed_decimal_bytes(n as int),
{
    if n < 0 {
        let magnitude: u64 = (0i128 - n as i128) as u64;
        let digits = decimal_u64(magnitude);
        let mut v: Vec<u8> = Vec::new();
        v.push(45u8);
        let mut i: usize = 0;
        while i < digits.len()
            invariant
                i <= digits.len(),
                v@ == seq![45u8] + digits@.subrange(0, i as int),
            decreases digits.len() - i,
        {
            v.push(digits[i]);
            i += 1;
        }
        assert(digits@.subrange(0, digits@.len() as int) == digits@);
        v
    } else {
        decimal_u64(n as u64)
    }
}

/// Appends `tail` to `head`.
pub fn append_bytes(head: &mut Vec<u8>, tail: &Vec<u8>)
    ensures
        final(head)@ == old(head)@ + tail@,
{
    let mut i: usize = 0;
    let ghost start = head@;
    while i < tail.len()
        invariant
            i <= tail.len(),
            head@ == start + tail@.subrange(0, i as int),
        decreases tail.len() - i,
    {
        head.push(tail[i]);
        i += 1;
    }
    assert(tail@.subrange(0, tail@.len() as int) == tail@);
}

/// The bytes of a string literal or other `&str`.
pub fn str_bytes(s: &str) -> (out: Vec<u8>)
    ensures
        out@ == s.spec_bytes(),
{
    s.as_bytes_vec()
}

/// `String::from_utf8` on bytes that are all ASCII, which std documents to
/// succeed; the string holds one character per byte.
#[verifier::external_body]
fn string_from_ascii(bytes: Vec<u8>) -> (s: String)
    requires
        all_ascii(bytes@),
    ensures
        s@ == ascii_chars(bytes@),
{
    String::from_utf8(bytes).unwrap()
}

/// A string holding the given ASCII bytes.
pub fn ascii_string(bytes: Vec<u8>) -> (s: String)
    requires
        all_ascii(bytes@),
    ensures
        s@ == ascii_chars(bytes@),
{
    string_from_ascii(bytes)
}

/// `head` followed by `tail`.
pub fn concat_strings(head: &str, tail: &str) -> (s: String)
    ensures
        s@ == head@ + tail@,
{
    let mut s = String::from_str(head);
    s.append(tail);
    s
}

} // verus!
