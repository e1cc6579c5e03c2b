use vstd::prelude::*;

verus! {

/// The ASCII byte of the decimal digit `d`.
pub open spec fn digit_byte(d: nat) -> u8 {
    (48 + d) as u8
}

/// The decimal representation of `n`, most significant digit first, without leading zeros
/// (zero is written as a single `0`).
pub open spec fn dec(n: nat) -> Seq<u8>
    decreases n,
{
    if n < 10 {
        seq![digit_byte(n)]
    } else {
        dec(n / 10).push(digit_byte(n % 10))
    }
}

/// Appends the decimal representation of `n` to `buf`.
pub fn push_decimal(buf: &mut Vec<u8>, n: u32)
    ensures
        final(buf)@ == old(buf)@ + dec(n as nat),
        digits_value(final(buf)@.subrange(old(buf)@.len() as int, final(buf)@.len() as int)) == n,
    decreases n,
{
    if n >= 10 {
        push_decimal(buf, n / 10);
    }
    buf.push(48u8 + (n % 10) as u8);
    proof {
        lemma_dec_reads_back(n as nat);
        assert(final(buf)@.subrange(old(buf)@.len() as int, final(buf)@.len() as int) =~= dec(n as nat));
    }
}


/// The number that the decimal digits `s` denote.
pub open spec fn digits_value(s: Seq<u8>) -> nat
    decreases s.len(),
{
    if s.len() == 0 {
        0
    } else {
        digits_value(s.drop_last()) * 10 + ((s.last() - 48) as nat)
    }
}

/// The decimal text of `n` is made of ASCII digits only, does not start with a zero unless it
/// is the single digit of zero, and reads back as `n`.
pub proof fn lemma_dec_reads_back(n: nat)
    ensures
        dec(n).len() >= 1,
        forall|i: int| 0 <= i < dec(n).len() ==> 48 <= #[trigger] dec(n)[i] <= 57,
        n > 0 ==> dec(n)[0] != 48,
        digits_value(dec(n)) == n,
    decreases n,
{
    if n >= 10 {
        lemma_dec_reads_back(n / 10);
        let s = dec(n);
        assert(s.drop_last() =~= dec(n / 10));
        assert(s.last() == digit_byte(n % 10));
        assert forall|i: int| 0 <= i < s.len() implies 48 <= #[trigger] s[i] <= 57 by {
            if i < s.len() - 1 {
                assert(s[i] == dec(n / 10)[i]);
            }
        }
        assert(s[0] == dec(n / 10)[0]);
        assert(s.last() - 48 == n % 10);
        assert(digits_value(s) == digits_value(dec(n / 10)) * 10 + n % 10);
        vstd::arithmetic::div_mod::lemma_fundamental_div_mod(n as int, 10);
    } else {
        assert(dec(n).last() - 48 == n);
        assert(digits_value(Seq::<u8>::empty()) == 0);
        assert(dec(n).drop_last() =~= Seq::<u8>::empty());
    }
}

/// The decimal representation of the integer `i`, with a leading `-` when it is negative.
pub open spec fn signed_dec(i: int) -> Seq<u8> {
    if i < 0 {
        seq![45u8] + dec((-i) as nat)
    } else {
        dec(i as nat)
    }
}

/// The integer that the text `s` denotes: decimal digits, after a `-` for a negative number.
pub open spec fn signed_value(s: Seq<u8>) -> int {
    if s.len() > 0 && s[0] == 45u8 {
        -(digits_value(s.drop_first()) as int)
    } else {
        digits_value(s) as int
    }
}

/// The signed decimal text of `i` reads back as `i`: for a number that is not negative it is
/// the digits of `i` alone, without a leading zero unless it is zero; for a negative number
/// it is `-` followed by the digits of `-i`, without a leading zero.
pub proof fn lemma_signed_dec_reads_back(i: int)
    ensures
        signed_value(signed_dec(i)) == i,
        i >= 0 ==> digits_value(signed_dec(i)) == i,
        i >= 0 ==> forall|k: int| 0 <= k < signed_dec(i).len() ==> 48 <= #[trigger] signed_dec(i)[k] <= 57,
        i > 0 ==> signed_dec(i)[0] != 48,
        i < 0 ==> signed_dec(i)[0] == 45,
        i < 0 ==> digits_value(signed_dec(i).drop_first()) == -i,
        i < 0 ==> signed_dec(i).drop_first()[0] != 48,
        i < 0 ==> forall|k: int|
            1 <= k < signed_dec(i).len() ==> 48 <= #[trigger] signed_dec(i)[k] <= 57,
{
    if i < 0 {
        lemma_dec_reads_back((-i) as nat);
        let s = signed_dec(i);
        assert(s.drop_first() =~= dec((-i) as nat));
        assert forall|k: int| 1 <= k < s.len() implies 48 <= #[trigger] s[k] <= 57 by {
            assert(s[k] == dec((-i) as nat)[k - 1]);
        }
    } else {
        lemma_dec_reads_back(i as nat);
        assert(dec(i as nat)[0] == 48 ==> i == 0);
        if dec(i as nat)[0] == 45 {
            assert(false);
        }
    }
}

/// Appends the decimal representation of `i` to `buf`.
pub fn push_signed_decimal(buf: &mut Vec<u8>, i: i32)
    ensures
        final(buf)@ == old(buf)@ + signed_dec(i as int),
        signed_value(final(buf)@.subrange(old(buf)@.len() as int, final(buf)@.len() as int)) == i,
{
    proof {
        lemma_signed_dec_reads_back(i as int);
    }
    if i < 0 {
        buf.push(45u8);
        let magnitude: u32 = (-(i as i64)) as u32;
        push_decimal(buf, magnitude);
        assert(final(buf)@ =~= old(buf)@ + signed_dec(i as int));
    } else {
        push_decimal(buf, i as u32);
    }
    assert(final(buf)@.subrange(old(buf)@.len() as int, final(buf)@.len() as int) =~= signed_dec(i as int));
}

/// Appends the bytes of `text` to `buf`.
pub fn push_bytes(buf: &mut Vec<u8>, text: &[u8])
    ensures
        final(buf)@ == old(buf)@ + text@,
{
    let ghost start = buf@;
    let mut k: usize = 0;
    while k < text.len()
        invariant
            k <= text.len(),
            buf@ == start + text@.subrange(0, k as int),
        decreases text.len() - k,
    {
        buf.push(text[k]);
        k = k + 1;
        assert(buf@ =~= start + text@.subrange(0, k as int));
    }
    assert(text@.subrange(0, text@.len() as int) =~= text@);
}

} // verus!
