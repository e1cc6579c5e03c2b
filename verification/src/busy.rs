use vstd::prelude::*;
use crate::delay::BUSY_TASK_DELAY;
use crate::stream::{lemma_rounds_concatenate, lemma_rounds_grow, rounds};

verus! {

/// `Executing task` followed by the digit `k`, `!` and a newline.
pub open spec fn executing_line(k: u8) -> Seq<u8> {
    seq![
        'E' as u8, 'x' as u8, 'e' as u8, 'c' as u8, 'u' as u8, 't' as u8, 'i' as u8, 'n' as u8,
        'g' as u8, ' ' as u8, 't' as u8, 'a' as u8, 's' as u8, 'k' as u8, k, '!' as u8, '\n' as u8,
    ]
}

/// One round of an announcing task: the line it prints, then the busy wait that follows, in
/// no-operations.
pub struct BusyRound {
    pub line: Vec<u8>,
    pub delay: u32,
}

fn executing(k: u8) -> (line: Vec<u8>)
    ensures
        line@ == executing_line(k),
{
    let line = vec![
        'E' as u8, 'x' as u8, 'e' as u8, 'c' as u8, 'u' as u8, 't' as u8, 'i' as u8, 'n' as u8,
        'g' as u8, ' ' as u8, 't' as u8, 'a' as u8, 's' as u8, 'k' as u8, k, '!' as u8, '\n' as u8,
    ];
    assert(line@ =~= executing_line(k));
    line
}

/// One round of the first announcing task: `Executing task1!`, then a busy wait of
/// `BUSY_TASK_DELAY` no-operations.
pub fn task1() -> (round: BusyRound)
    ensures
        round.line@ == executing_line('1' as u8),
        round.delay == BUSY_TASK_DELAY,
{
    BusyRound { line: executing('1' as u8), delay: BUSY_TASK_DELAY }
}

/// One round of the second announcing task: `Executing task2!`, then a busy wait of
/// `BUSY_TASK_DELAY` no-operations.
pub fn task2() -> (round: BusyRound)
    ensures
        round.line@ == executing_line('2' as u8),
        round.delay == BUSY_TASK_DELAY,
{
    BusyRound { line: executing('2' as u8), delay: BUSY_TASK_DELAY }
}

/// Announcing task `k`'s line, the same in every round.
pub open spec fn busy_round(k: u8) -> spec_fn(int) -> Seq<u8> {
    |m: int| executing_line(k)
}

/// After `r` rounds an announcing task has printed its line `r` times over, and what it
/// printed at any moment is a prefix of what it prints later.
pub proof fn lemma_busy_task_output(k: u8, r: nat, j: nat)
    requires
        j <= r,
    ensures
        rounds(busy_round(k), 0, r) == Seq::new(r, |i: int| executing_line(k)).flatten(),
        rounds(busy_round(k), 0, j).is_prefix_of(rounds(busy_round(k), 0, r)),
{
    lemma_rounds_concatenate(busy_round(k), 0, r);
    assert(Seq::new(r, |i: int| busy_round(k)(0 + i)) =~= Seq::new(r, |i: int| executing_line(k)));
    lemma_rounds_grow(busy_round(k), 0, j, r);
}

} // verus!
