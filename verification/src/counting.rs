use vstd::prelude::*;
use crate::decimal::{lemma_signed_dec_reads_back, push_bytes, push_signed_decimal, signed_dec, signed_value};
use crate::delay::LONG_DELAY;
use crate::stream::{lemma_rounds_concatenate, lemma_rounds_grow, rounds};

verus! {

/// One round of the counting loop: the line it prints, the busy wait after it (in
/// no-operations), and the number it goes on with.
pub struct CountingRound {
    pub line: Vec<u8>,
    pub delay: u32,
    pub next: i32,
}

/// `Counting: n` and a newline.
pub open spec fn counting_line(n: int) -> Seq<u8> {
    seq![
        'C' as u8, 'o' as u8, 'u' as u8, 'n' as u8, 't' as u8, 'i' as u8, 'n' as u8, 'g' as u8,
        ':' as u8, ' ' as u8,
    ] + signed_dec(n) + seq!['\n' as u8]
}

/// One round of the counting loop for the number `n`, which counts up from zero. The
/// number after the largest `i32` overflows, so that round is left out.
pub fn counting(n: i32) -> (round: CountingRound)
    requires
        n < i32::MAX,
    ensures
        round.line@ == counting_line(n as int),
        round.delay == LONG_DELAY,
        round.next == n + 1,
{
    let mut line: Vec<u8> = Vec::new();
    push_bytes(
        &mut line,
        &[
            'C' as u8, 'o' as u8, 'u' as u8, 'n' as u8, 't' as u8, 'i' as u8, 'n' as u8, 'g' as u8,
            ':' as u8, ' ' as u8,
        ],
    );
    push_signed_decimal(&mut line, n);
    line.push('\n' as u8);
    assert(line@ =~= counting_line(n as int));
    CountingRound { line, delay: LONG_DELAY, next: n + 1 }
}

/// The counting loop's line for number `m`, as a function of the number.
pub open spec fn counting_round() -> spec_fn(int) -> Seq<u8> {
    |m: int| counting_line(m)
}

/// After `k` rounds from zero the counting loop has printed the lines for 0 to `k - 1` one
/// after the other, and what it printed at any moment is a prefix of what it prints later.
pub proof fn lemma_counting_output(k: nat, j: nat)
    requires
        j <= k,
    ensures
        rounds(counting_round(), 0, k) == Seq::new(k, |i: int| counting_line(i)).flatten(),
        rounds(counting_round(), 0, j).is_prefix_of(rounds(counting_round(), 0, k)),
{
    lemma_rounds_concatenate(counting_round(), 0, k);
    assert(Seq::new(k, |i: int| counting_round()(0 + i)) =~= Seq::new(k, |i: int| counting_line(i)));
    lemma_rounds_grow(counting_round(), 0, j, k);
}

/// The counting line for `n` reads `Counting: `, then text that reads back as `n`, then a
/// newline.
pub proof fn lemma_counting_line_reads_back(n: int)
    ensures
        ({
            let t = counting_line(n);
            &&& t.subrange(0, 10) == seq![
                'C' as u8, 'o' as u8, 'u' as u8, 'n' as u8, 't' as u8, 'i' as u8, 'n' as u8,
                'g' as u8, ':' as u8, ' ' as u8,
            ]
            &&& signed_value(t.subrange(10, t.len() - 1)) == n
            &&& t[t.len() - 1] == '\n' as u8
        }),
{
    lemma_signed_dec_reads_back(n);
    let t = counting_line(n);
    assert(t.subrange(10, t.len() - 1) =~= signed_dec(n));
}

} // verus!
