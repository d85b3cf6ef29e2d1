//! Small pieces of text that the protocol spells out itself: numbers in
//! decimal and IPv4 addresses in dotted form.

use vstd::prelude::*;

verus! {

/// `String::push` appends one character to the end of the string.
pub assume_specification[ String::push ](s: &mut String, ch: char)
    ensures
        final(s)@ == old(s)@.push(ch),
;

/// The ASCII decimal digits of `n`, without leading zeros.
pub open spec fn decimal(n: nat) -> Seq<u8>
    decreases n,
{
    if n < 10 {
        seq![(0x30 + n) as u8]
    } else {
        decimal(n / 10).push((0x30 + n % 10) as u8)
    }
}

/// Appends the decimal digits of `n` to `out`.
pub fn push_decimal(out: &mut Vec<u8>, n: u64)
    ensures
        final(out)@ == old(out)@ + decimal(n as nat),
    decreases n,
{
    if n >= 10 {
        push_decimal(out, n / 10);
    }
    out.push(0x30 + (n % 10) as u8);
    assert(out@ =~= old(out)@ + decimal(n as nat));
}

/// Every number has at least one digit, and every digit is an ASCII digit.
pub proof fn lemma_decimal_digits(n: nat)
    ensures
        decimal(n).len() >= 1,
        forall|i: int| 0 <= i < decimal(n).len() ==> 0x30 <= #[trigger] decimal(n)[i] <= 0x39,
    decreases n,
{
    if n >= 10 {
        lemma_decimal_digits(n / 10);
    }
}

/// The number that a string of ASCII digits spells.
pub open spec fn decimal_value(digits: Seq<u8>) -> nat
    decreases digits.len(),
{
    if digits.len() == 0 {
        0
    } else {
        (10 * decimal_value(digits.drop_last()) + (digits.last() - 0x30)) as nat
    }
}

/// The digits of a number spell that number.
pub proof fn lemma_decimal_value(n: nat)
    ensures
        decimal_value(decimal(n)) == n,
    decreases n,
{
    if n >= 10 {
        lemma_decimal_value(n / 10);
        assert(decimal(n).drop_last() =~= decimal(n / 10));
    } else {
        assert(decimal(n).drop_last() =~= Seq::<u8>::empty());
        assert(decimal_value(Seq::<u8>::empty()) == 0);
    }
}

/// ASCII bytes as characters.
pub open spec fn ascii_chars(bytes: Seq<u8>) -> Seq<char> {
    bytes.map_values(|b: u8| b as char)
}

/// The decimal digits of `n` as characters, without leading zeros.
pub open spec fn decimal_text(n: nat) -> Seq<char> {
    ascii_chars(decimal(n))
}

/// The four numbers of an IPv4 address in decimal, with dots between them.
pub open spec fn dotted_quad_spec(ip: Seq<u8>) -> Seq<char> {
    decimal_text(ip[0] as nat) + seq!['.'] + decimal_text(ip[1] as nat) + seq!['.'] + decimal_text(
        ip[2] as nat,
    ) + seq!['.'] + decimal_text(ip[3] as nat)
}

/// Appends ASCII bytes to `out` as characters.
pub fn push_ascii(out: &mut String, bytes: &[u8])
    ensures
        final(out)@ == old(out)@ + ascii_chars(bytes@),
{
    let mut i: usize = 0;
    assert(out@ =~= old(out)@ + ascii_chars(bytes@.take(0)));
    while i < bytes.len()
        invariant
            i <= bytes@.len(),
            out@ == old(out)@ + ascii_chars(bytes@.take(i as int)),
        decreases bytes@.len() - i,
    {
        out.push(bytes[i] as char);
        assert(ascii_chars(bytes@.take(i + 1)) =~= ascii_chars(bytes@.take(i as int)).push(
            bytes@[i as int] as char,
        ));
        i += 1;
    }
    assert(bytes@.take(i as int) =~= bytes@);
}

/// Appends the decimal digits of `n` to `out`.
pub fn push_decimal_text(out: &mut String, n: u64)
    ensures
        final(out)@ == old(out)@ + decimal_text(n as nat),
{
    let mut digits: Vec<u8> = Vec::new();
    push_decimal(&mut digits, n);
    assert(digits@ =~= decimal(n as nat));
    push_ascii(out, digits.as_slice());
}

/// An IPv4 address in dotted form, such as `203.0.113.7`.
pub fn dotted_quad(ip: &[u8; 4]) -> (text: String)
    ensures
        text@ == dotted_quad_spec(ip@),
{
    let mut text = String::new();
    push_decimal_text(&mut text, ip[0] as u64);
    text.push('.');
    push_decimal_text(&mut text, ip[1] as u64);
    text.push('.');
    push_decimal_text(&mut text, ip[2] as u64);
    text.push('.');
    push_decimal_text(&mut text, ip[3] as u64);
    assert(text@ =~= dotted_quad_spec(ip@));
    text
}

} // verus!
