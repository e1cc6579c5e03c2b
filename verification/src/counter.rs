use vstd::prelude::*;
use crate::decimal::{lemma_signed_dec_reads_back, push_bytes, push_signed_decimal, signed_dec, signed_value};
use crate::delay::LONG_DELAY;
use crate::stream::{lemma_rounds_concatenate, lemma_rounds_grow, rounds};

verus! {

/// The counter value the counting task starts from.
pub const COUNTER_TASK_START: i32 = 0;

/// What one round of the counting task prints around its busy wait, how long the wait is (in
/// no-operations), and the counter it goes on with.
pub struct CounterRound {
    pub before_delay: Vec<u8>,
    pub delay: u32,
    pub after_delay: Vec<u8>,
    pub next: i32,
}

/// `Working` and a newline.
pub open spec fn working_text() -> Seq<u8> {
    seq!['W' as u8, 'o' as u8, 'r' as u8, 'k' as u8, 'i' as u8, 'n' as u8, 'g' as u8, '\n' as u8]
}

/// `Work is done` and a newline.
pub open spec fn done_text() -> Seq<u8> {
    seq![
        'W' as u8, 'o' as u8, 'r' as u8, 'k' as u8, ' ' as u8, 'i' as u8, 's' as u8, ' ' as u8,
        'd' as u8, 'o' as u8, 'n' as u8, 'e' as u8, '\n' as u8,
    ]
}

/// `Starting task n=(n)` and a newline.
pub open spec fn start_line(n: int) -> Seq<u8> {
    seq![
        'S' as u8, 't' as u8, 'a' as u8, 'r' as u8, 't' as u8, 'i' as u8, 'n' as u8, 'g' as u8,
        ' ' as u8, 't' as u8, 'a' as u8, 's' as u8, 'k' as u8, ' ' as u8, 'n' as u8, '=' as u8,
        '(' as u8,
    ] + signed_dec(n) + seq![')' as u8, '\n' as u8]
}

/// One round of the counting task for the counter `n`: it announces the round, works (the
/// busy wait comes between the two texts), reports the work done, and counts on.
pub fn task(n: i32) -> (round: CounterRound)
    requires
        n < i32::MAX,
    ensures
        round.before_delay@ == start_line(n as int) + working_text(),
        round.delay == LONG_DELAY,
        round.after_delay@ == done_text(),
        round.next == n + 1,
{
    let mut before_delay: Vec<u8> = Vec::new();
    push_bytes(
        &mut before_delay,
        &[
            'S' as u8, 't' as u8, 'a' as u8, 'r' as u8, 't' as u8, 'i' as u8, 'n' as u8, 'g' as u8,
            ' ' as u8, 't' as u8, 'a' as u8, 's' as u8, 'k' as u8, ' ' as u8, 'n' as u8, '=' as u8,
            '(' as u8,
        ],
    );
    push_signed_decimal(&mut before_delay, n);
    push_bytes(&mut before_delay, &[')' as u8, '\n' as u8]);
    push_bytes(
        &mut before_delay,
        &['W' as u8, 'o' as u8, 'r' as u8, 'k' as u8, 'i' as u8, 'n' as u8, 'g' as u8, '\n' as u8],
    );
    let mut after_delay: Vec<u8> = Vec::new();
    push_bytes(
        &mut after_delay,
        &[
            'W' as u8, 'o' as u8, 'r' as u8, 'k' as u8, ' ' as u8, 'i' as u8, 's' as u8, ' ' as u8,
            'd' as u8, 'o' as u8, 'n' as u8, 'e' as u8, '\n' as u8,
        ],
    );
    assert(before_delay@ =~= start_line(n as int) + working_text());
    assert(after_delay@ =~= done_text());
    CounterRound { before_delay, delay: LONG_DELAY, after_delay, next: n + 1 }
}

/// Everything one round of the counting task prints for counter `m`.
pub open spec fn counter_round() -> spec_fn(int) -> Seq<u8> {
    |m: int| start_line(m) + working_text() + done_text()
}

/// The counting task, started at its first counter, prints after `k` rounds the texts of the
/// rounds for the counters 0 to `k - 1` one after the other, and what it printed at any
/// moment is a prefix of what it prints later.
pub proof fn lemma_counter_task_output(k: nat, j: nat)
    requires
        j <= k,
    ensures
        rounds(counter_round(), COUNTER_TASK_START as int, k) == Seq::new(
            k,
            |i: int| start_line(i) + working_text() + done_text(),
        ).flatten(),
        rounds(counter_round(), COUNTER_TASK_START as int, j).is_prefix_of(
            rounds(counter_round(), COUNTER_TASK_START as int, k),
        ),
{
    lemma_rounds_concatenate(counter_round(), COUNTER_TASK_START as int, k);
    assert(Seq::new(k, |i: int| counter_round()(COUNTER_TASK_START as int + i)) =~= Seq::new(
        k,
        |i: int| start_line(i) + working_text() + done_text(),
    ));
    lemma_rounds_grow(counter_round(), COUNTER_TASK_START as int, j, k);
}

/// `Entering kernel` and a newline.
pub open spec fn entering_kernel_line() -> Seq<u8> {
    seq![
        'E' as u8, 'n' as u8, 't' as u8, 'e' as u8, 'r' as u8, 'i' as u8, 'n' as u8, 'g' as u8,
        ' ' as u8, 'k' as u8, 'e' as u8, 'r' as u8, 'n' as u8, 'e' as u8, 'l' as u8, '\n' as u8,
    ]
}

/// What the kernel prints each time the task was preempted and control came back to it.
pub fn entering_kernel() -> (line: Vec<u8>)
    ensures
        line@ == entering_kernel_line(),
{
    let line = vec![
        'E' as u8, 'n' as u8, 't' as u8, 'e' as u8, 'r' as u8, 'i' as u8, 'n' as u8, 'g' as u8,
        ' ' as u8, 'k' as u8, 'e' as u8, 'r' as u8, 'n' as u8, 'e' as u8, 'l' as u8, '\n' as u8,
    ];
    assert(line@ =~= entering_kernel_line());
    line
}

/// The counting task's first line for `n` reads `Starting task n=(`, then text that reads
/// back as `n`, then `)` and a newline.
pub proof fn lemma_start_line_reads_back(n: int)
    ensures
        ({
            let t = start_line(n);
            &&& t.subrange(0, 17) == seq![
                'S' as u8, 't' as u8, 'a' as u8, 'r' as u8, 't' as u8, 'i' as u8, 'n' as u8,
                'g' as u8, ' ' as u8, 't' as u8, 'a' as u8, 's' as u8, 'k' as u8, ' ' as u8,
                'n' as u8, '=' as u8, '(' as u8,
            ]
            &&& signed_value(t.subrange(17, t.len() - 2)) == n
            &&& t.subrange(t.len() - 2, t.len() as int) == seq![')' as u8, '\n' as u8]
        }),
{
    lemma_signed_dec_reads_back(n);
    let t = start_line(n);
    assert(t.subrange(17, t.len() - 2) =~= signed_dec(n));
    assert(t.subrange(t.len() - 2, t.len() as int) =~= seq![')' as u8, '\n' as u8]);
}

} // verus!
