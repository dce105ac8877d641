//! Hexadecimal text for digests.
use vstd::prelude::*;

verus! {

/// The lower-case hexadecimal digit for a value below 16.
pub open spec fn hex_digit(n: u8) -> char {
    if n < 10 {
        (48 + n) as char
    } else {
        (87 + n) as char
    }
}

/// Two lower-case hexadecimal digits per byte, most significant first.
pub open spec fn hex_of(bytes: Seq<u8>) -> Seq<char>
    decreases bytes.len(),
{
    if bytes.len() == 0 {
        Seq::empty()
    } else {
        hex_of(bytes.drop_last()) + seq![hex_digit(bytes.last() / 16), hex_digit(bytes.last() % 16)]
    }
}

/// Relies on std's `String::push`: appends one character at the end.
#[verifier::external_body]
fn push_char(s: &mut String, c: char)
    ensures
        final(s)@ == old(s)@.push(c),
{
    s.push(c)
}

fn digit_char(n: u8) -> (c: char)
    requires
        n < 16,
    ensures
        c == hex_digit(n),
{
    if n < 10 {
        (48 + n) as char
    } else {
        (87 + n) as char
    }
}

/// The bytes as lower-case hexadecimal text.
pub fn to_hex(bytes: &[u8]) -> (r: String)
    ensures
        r@ == hex_of(bytes@),
{
    let mut s = String::new();
    let mut i: usize = 0;
    while i < bytes.len()
        invariant
            i <= bytes.len(),
            s@ == hex_of(bytes@.take(i as int)),
        decreases bytes.len() - i,
    {
        let b = bytes[i];
        push_char(&mut s, digit_char(b / 16));
        push_char(&mut s, digit_char(b % 16));
        assert(bytes@.take(i as int + 1).drop_last() =~= bytes@.take(i as int));
        i = i + 1;
    }
    assert(bytes@.take(i as int) =~= bytes@);
    s
}

} // verus!
