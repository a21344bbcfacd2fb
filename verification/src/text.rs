//! Decimal numbers and fixed-width fields, as ASCII bytes.

use vstd::prelude::*;

verus! {

/// The decimal digits of `n` in ASCII, most significant digit first.
pub open spec fn decimal(n: nat) -> Seq<u8>
    decreases n,
{
    if n < 10 {
        seq![(48 + n) as u8]
    } else {
        decimal(n / 10).push((48 + n % 10) as u8)
    }
}

/// A run of `count` space characters.
pub open spec fn spaces(count: nat) -> Seq<u8> {
    Seq::new(count, |i: int| 32u8)
}

/// `body` right-aligned in a field of `width` bytes: a shorter body gets
/// spaces in front, a longer one is kept whole.
pub open spec fn right_aligned(body: Seq<u8>, width: nat) -> Seq<u8> {
    if body.len() >= width {
        body
    } else {
        spaces((width - body.len()) as nat) + body
    }
}

/// The number that a row of decimal digits stands for.
pub open spec fn number_of(digits: Seq<u8>) -> nat
    decreases digits.len(),
{
    if digits.len() == 0 {
        0
    } else {
        (10 * number_of(digits.drop_last()) + (digits.last() - 48)) as nat
    }
}

/// The decimal digits of a number stand for that number, and begin with a
/// zero only where the number is zero.
pub proof fn lemma_decimal_reads_back(n: nat)
    ensures
        number_of(decimal(n)) == n,
        decimal(n)[0] == 48 <==> n == 0,
    decreases n,
{
    if n < 10 {
        assert(number_of(decimal(n).drop_last()) == 0);
    } else {
        lemma_decimal_reads_back(n / 10);
        lemma_decimal_is_digits(n / 10);
        assert(decimal(n).drop_last() =~= decimal(n / 10));
    }
}

/// A decimal number is never empty and holds only digit characters.
pub proof fn lemma_decimal_is_digits(n: nat)
    ensures
        decimal(n).len() >= 1,
        forall|i: int| 0 <= i < decimal(n).len() ==> 48 <= #[trigger] decimal(n)[i] <= 57,
    decreases n,
{
    if n >= 10 {
        lemma_decimal_is_digits(n / 10);
    }
}

/// A right-aligned field has the width that was asked for, or that of its
/// body where the body is wider.
pub proof fn lemma_right_aligned_len(body: Seq<u8>, width: nat)
    ensures
        right_aligned(body, width).len() == if body.len() >= width {
            body.len()
        } else {
            width
        },
{
}

/// Appends the decimal digits of `n` to `out`.
pub fn push_decimal(out: &mut Vec<u8>, n: u128)
    ensures
        final(out)@ == old(out)@ + decimal(n as nat),
    decreases n,
{
    if n >= 10 {
        push_decimal(out, n / 10);
    }
    let digit: u8 = (n % 10) as u8;
    out.push(48u8 + digit);
}

/// Appends `body` to `out`.
pub fn push_bytes(out: &mut Vec<u8>, body: &Vec<u8>)
    ensures
        final(out)@ == old(out)@ + body@,
{
    let mut i: usize = 0;
    while i < body.len()
        invariant
            i <= body.len(),
            out@ == old(out)@ + body@.take(i as int),
        decreases body.len() - i,
    {
        out.push(body[i]);
        i = i + 1;
    }
}

/// A copy of `body`.
pub fn copy_bytes(body: &Vec<u8>) -> (copy: Vec<u8>)
    ensures
        copy@ == body@,
{
    let mut copy: Vec<u8> = Vec::new();
    push_bytes(&mut copy, body);
    copy
}

/// Appends `body` to `out`, right-aligned in a field of `width` bytes.
pub fn push_right_aligned(out: &mut Vec<u8>, body: &Vec<u8>, width: usize)
    ensures
        final(out)@ == old(out)@ + right_aligned(body@, width as nat),
{
    let gap: usize = if body.len() < width {
        width - body.len()
    } else {
        0
    };
    let mut put: usize = 0;
    while put < gap
        invariant
            put <= gap,
            out@ == old(out)@ + spaces(put as nat),
        decreases gap - put,
    {
        out.push(32u8);
        put = put + 1;
    }
    push_bytes(out, body);
}

} // verus!
