use vstd::prelude::*;
use crate::context::{Process, pushed_call};

verus! {

/// How many tasks the kernel runs.
pub const TASK_NUM: usize = 2;

/// How many words each task's stack holds.
pub const TASK_STACK_SIZE: usize = 100;

/// The task that starts at `entry` on `stack`: its start frame lies just below the stack's
/// last word, and its stack pointer is the frame's bottom.
pub fn spawn(stack: &mut [usize], entry: usize) -> (p: Process)
    requires
        old(stack)@.len() == TASK_STACK_SIZE,
    ensures
        p.sp() == TASK_STACK_SIZE - 9,
        p.regs() == Seq::new(8, |i: int| 0usize),
        final(stack)@ == pushed_call(old(stack)@, TASK_STACK_SIZE - 1, entry),
{
    Process::new(stack, TASK_STACK_SIZE - 1, entry)
}

/// The task the dispatcher switches to after task `index`: the tasks take turns.
pub open spec fn round_robin(index: nat) -> nat {
    (index + 1) % (TASK_NUM as nat)
}

/// The index of the task that runs after task `index`.
pub fn next_task(index: usize) -> (next: usize)
    requires
        index < TASK_NUM,
    ensures
        next == round_robin(index as nat),
        next < TASK_NUM,
{
    if index + 1 == TASK_NUM {
        0
    } else {
        index + 1
    }
}

/// `Kernel started!` and a newline.
pub open spec fn started_line() -> Seq<u8> {
    seq![
        'K' as u8, 'e' as u8, 'r' as u8, 'n' as u8, 'e' as u8, 'l' as u8, ' ' as u8, 's' as u8,
        't' as u8, 'a' as u8, 'r' as u8, 't' as u8, 'e' as u8, 'd' as u8, '!' as u8, '\n' as u8,
    ]
}

/// A blank line, then `Executing task` with the task's number (counted from one), `!` and a
/// newline.
pub open spec fn heading_line(index: nat) -> Seq<u8> {
    seq![
        '\n' as u8, 'E' as u8, 'x' as u8, 'e' as u8, 'c' as u8, 'u' as u8, 't' as u8, 'i' as u8,
        'n' as u8, 'g' as u8, ' ' as u8, 't' as u8, 'a' as u8, 's' as u8, 'k' as u8, (49 + index) as u8,
        '!' as u8, '\n' as u8,
    ]
}

/// What the kernel prints once its peripherals are set up.
pub fn kernel_started() -> (line: Vec<u8>)
    ensures
        line@ == started_line(),
{
    let line = vec![
        'K' as u8, 'e' as u8, 'r' as u8, 'n' as u8, 'e' as u8, 'l' as u8, ' ' as u8, 's' as u8,
        't' as u8, 'a' as u8, 'r' as u8, 't' as u8, 'e' as u8, 'd' as u8, '!' as u8, '\n' as u8,
    ];
    assert(line@ =~= started_line());
    line
}

/// The heading the dispatcher prints before it switches to task `index`.
pub fn task_heading(index: usize) -> (line: Vec<u8>)
    requires
        index < TASK_NUM,
    ensures
        line@ == heading_line(index as nat),
{
    let digit: u8 = 49u8 + index as u8;
    let line = vec![
        '\n' as u8, 'E' as u8, 'x' as u8, 'e' as u8, 'c' as u8, 'u' as u8, 't' as u8, 'i' as u8,
        'n' as u8, 'g' as u8, ' ' as u8, 't' as u8, 'a' as u8, 's' as u8, 'k' as u8, digit, '!' as u8,
        '\n' as u8,
    ];
    assert(line@ =~= heading_line(index as nat));
    line
}

/// The tasks take turns: the dispatcher never switches to the task that just ran, and after
/// every task had one turn it is back at the task it started from.
pub proof fn lemma_round_robin_fair(index: nat)
    requires
        index < TASK_NUM,
    ensures
        round_robin(index) < TASK_NUM,
        round_robin(index) != index,
        round_robin(round_robin(index)) == index,
{
}

} // verus!
