//! The building blocks of control sequences: the introducer and numbers in
//! decimal.

use vstd::prelude::*;

verus! {

/// The byte `ESC`, which opens every control sequence.
pub const ESCAPE: u8 = 0x1B;

/// The byte `[`, which opens the parameters of a control sequence.
pub const INTRODUCER: u8 = 0x5B;

/// The byte `;`, which parts two parameters.
pub const SEPARATOR: u8 = 0x3B;

/// Whether a byte is an ASCII decimal digit.
pub open spec fn is_digit(byte: u8) -> bool {
    0x30 <= byte <= 0x39
}

/// The number that a sequence of decimal digits denotes, the first digit
/// counting most.
pub open spec fn decimal(digits: Seq<u8>) -> nat
    decreases digits.len(),
{
    if digits.len() == 0 {
        0
    } else {
        decimal(digits.drop_last()) * 10 + (digits.last() - 0x30) as nat
    }
}

/// Whether bytes are a number: one or more decimal digits.
pub open spec fn is_number(field: Seq<u8>) -> bool {
    field.len() > 0 && forall|i: int| 0 <= i < field.len() ==> is_digit(#[trigger] field[i])
}

/// The decimal digits of a number, without leading zeros.
pub open spec fn digits(number: nat) -> Seq<u8>
    decreases number,
{
    if number < 10 {
        seq![(0x30 + number) as u8]
    } else {
        digits(number / 10).push((0x30 + number % 10) as u8)
    }
}

/// A control sequence: the escape byte, the introducer, and what follows them.
pub open spec fn csi(body: Seq<u8>) -> Seq<u8> {
    seq![ESCAPE, INTRODUCER] + body
}

/// The digits of a number are a number, and they denote it.
pub proof fn lemma_digits_denote(number: nat)
    ensures
        is_number(digits(number)),
        decimal(digits(number)) == number,
    decreases number,
{
    if number < 10 {
        assert(digits(number).drop_last() =~= Seq::<u8>::empty());
        assert(decimal(Seq::<u8>::empty()) == 0);
    } else {
        lemma_digits_denote(number / 10);
        assert(digits(number).drop_last() =~= digits(number / 10));
    }
}

/// A number's value does not shrink when digits are appended to it.
pub proof fn lemma_decimal_grows(field: Seq<u8>, len: int)
    requires
        0 <= len <= field.len(),
        forall|i: int| 0 <= i < field.len() ==> is_digit(#[trigger] field[i]),
    ensures
        decimal(field.take(len)) <= decimal(field),
    decreases field.len() - len,
{
    if len < field.len() {
        lemma_decimal_grows(field, len + 1);
        assert(field.take(len + 1).drop_last() =~= field.take(len));
    } else {
        assert(field.take(len) =~= field);
    }
}

/// Appends the escape byte and the introducer.
pub fn push_csi(out: &mut Vec<u8>)
    ensures
        final(out)@ == old(out)@ + csi(Seq::empty()),
{
    out.push(ESCAPE);
    out.push(INTRODUCER);
    proof {
        assert(out@ =~= old(out)@ + csi(Seq::empty()));
    }
}

/// Appends a number in decimal.
pub fn push_number(out: &mut Vec<u8>, number: u32)
    ensures
        final(out)@ == old(out)@ + digits(number as nat),
    decreases number,
{
    if number >= 10 {
        push_number(out, number / 10);
    }
    out.push(0x30 + (number % 10) as u8);
    proof {
        assert(out@ =~= old(out)@ + digits(number as nat));
    }
}

/// Appends bytes.
pub fn push_bytes(out: &mut Vec<u8>, bytes: &[u8])
    ensures
        final(out)@ == old(out)@ + bytes@,
{
    let mut at: usize = 0;
    while at < bytes.len()
        invariant
            at <= bytes@.len(),
            out@ == old(out)@ + bytes@.take(at as int),
        decreases bytes@.len() - at,
    {
        out.push(bytes[at]);
        proof {
            assert(bytes@.take(at + 1) =~= bytes@.take(at as int).push(bytes@[at as int]));
        }
        at += 1;
    }
    proof {
        assert(bytes@.take(at as int) =~= bytes@);
    }
}

} // verus!
