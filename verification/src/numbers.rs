use vstd::prelude::*;

verus! {

/// ASCII code of the digit `0`.
pub const DIGIT_ZERO: u8 = 0x30;

/// Decimal digits of `n`, most significant first; empty for `n == 0`.
pub open spec fn spec_digits(n: nat) -> Seq<u8>
    decreases n,
{
    if n == 0 {
        Seq::empty()
    } else {
        spec_digits(n / 10) + seq![(0x30 + n % 10) as u8]
    }
}

/// The decimal rendering of `n`: no sign, no leading zero, a single `0` for zero.
pub open spec fn spec_decimal(n: nat) -> Seq<u8> {
    if n == 0 {
        seq![DIGIT_ZERO]
    } else {
        spec_digits(n)
    }
}

/// The rendering of a positive number is non-empty, made of ASCII digits,
/// and never starts with `0`.
pub proof fn lemma_digits_shape(n: nat)
    ensures
        n > 0 ==> spec_digits(n).len() > 0,
        n > 0 ==> spec_digits(n)[0] != DIGIT_ZERO,
        forall|i: int|
            0 <= i < spec_digits(n).len() ==> 0x30 <= #[trigger] spec_digits(n)[i] <= 0x39,
    decreases n,
{
    if n > 0 {
        lemma_digits_shape(n / 10);
        let last = (0x30 + n % 10) as u8;
        assert(0x30 + n % 10 < 256);
        assert(0x30 <= last <= 0x39);
        assert(spec_digits(n) == spec_digits(n / 10) + seq![last]);
        if n / 10 == 0 {
            assert(spec_digits(n) =~= seq![last]);
            assert(n % 10 == n);
            assert(spec_digits(n)[0] == last);
            assert(last != DIGIT_ZERO);
        } else {
            assert(spec_digits(n)[0] == spec_digits(n / 10)[0]);
        }
        assert forall|i: int|
            0 <= i < spec_digits(n).len() implies 0x30 <= #[trigger] spec_digits(n)[i]
            <= 0x39 by {
            if i < spec_digits(n / 10).len() {
                assert(spec_digits(n)[i] == spec_digits(n / 10)[i]);
            } else {
                assert(spec_digits(n)[i] == last);
            }
        }
    }
}

/// The decimal rendering of any number is non-empty, made of ASCII digits,
/// and has no leading zero.
pub proof fn lemma_decimal_shape(n: nat)
    ensures
        spec_decimal(n).len() > 0,
        n > 0 ==> spec_decimal(n)[0] != DIGIT_ZERO,
        forall|i: int|
            0 <= i < spec_decimal(n).len() ==> 0x30 <= #[trigger] spec_decimal(n)[i] <= 0x39,
{
    lemma_digits_shape(n);
}

fn push_digits(n: u64, out: &mut Vec<u8>)
    ensures
        final(out)@ == old(out)@ + spec_digits(n as nat),
    decreases n,
{
    if n == 0 {
        assert(out@ =~= out@ + spec_digits(0));
        return;
    }
    push_digits(n / 10, out);
    let d: u8 = DIGIT_ZERO + (n % 10) as u8;
    out.push(d);
    proof {
        assert(out@ =~= old(out)@ + spec_digits(n as nat));
    }
}

/// Append the decimal rendering of `n` to `out`.
pub fn encode_u64(n: u64, out: &mut Vec<u8>)
    ensures
        final(out)@ == old(out)@ + spec_decimal(n as nat),
{
    if n == 0 {
        out.push(DIGIT_ZERO);
        proof {
            assert(out@ =~= old(out)@ + spec_decimal(0));
        }
    } else {
        push_digits(n, out);
    }
}

} // verus!
