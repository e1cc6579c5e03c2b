use vstd::prelude::*;

verus! {

/// EXC_RETURN value that returns to thread mode on the main stack: back to the kernel.
pub const RETURN_TO_KERNEL: u32 = 0xffff_fff9;

/// EXC_RETURN value that returns to thread mode on the process stack: on to the task.
pub const RETURN_TO_TASK: u32 = 0xffff_fffd;

/// Initial program status word of a task: only the Thumb bit set.
pub const INITIAL_XPSR: usize = 0x0100_0000;

/// Link register of a fresh task: the Thumb bit alone, since its entry function never
/// returns.
pub const INITIAL_LR: usize = 1;

/// Number of words the processor stacks on exception entry and unstacks on return:
/// r0-r3, r12, lr, pc and xPSR, from the lowest address up.
pub const FRAME_WORDS: usize = 8;

/// Word `k` (counted from the bottom) of the stack frame that starts a task at `callback`;
/// `r12` is the word that was there before, which the frame leaves as it is.
pub open spec fn initial_frame_word(k: int, callback: usize, r12: usize) -> usize {
    if k == 7 {
        INITIAL_XPSR
    } else if k == 6 {
        callback | 1
    } else if k == 5 {
        INITIAL_LR
    } else if k == 4 {
        r12
    } else {
        0
    }
}

/// The task stack `s` after a start frame for `callback` was laid below the word index `top`.
pub open spec fn pushed_call(s: Seq<usize>, top: int, callback: usize) -> Seq<usize> {
    Seq::new(
        s.len(),
        |i: int|
            if top - 8 <= i < top {
                initial_frame_word(i - (top - 8), callback, s[i])
            } else {
                s[i]
            },
    )
}

/// The registers the processor restores from an exception frame.
pub struct ExceptionFrame {
    pub r0: usize,
    pub r1: usize,
    pub r2: usize,
    pub r3: usize,
    pub r12: usize,
    pub lr: usize,
    pub pc: usize,
    pub xpsr: usize,
}

/// What an exception return to the process stack at word index `sp` of `s` loads: the
/// registers of the frame there, and the stack pointer just above the frame.
pub open spec fn unstack(s: Seq<usize>, sp: int) -> (ExceptionFrame, int) {
    (
        ExceptionFrame {
            r0: s[sp],
            r1: s[sp + 1],
            r2: s[sp + 2],
            r3: s[sp + 3],
            r12: s[sp + 4],
            lr: s[sp + 5],
            pc: s[sp + 6],
            xpsr: s[sp + 7],
        },
        sp + 8,
    )
}

/// Lays the stack frame that starts a task at `callback` just below the word index
/// `user_stack` of the task stack, so that the first exception return to this stack runs
/// `callback`; returns the index of the frame's bottom, the task's first stack pointer.
pub fn push_function_call(stack: &mut [usize], user_stack: usize, callback: usize) -> (bottom: usize)
    requires
        FRAME_WORDS <= user_stack <= old(stack)@.len(),
    ensures
        bottom == user_stack - FRAME_WORDS,
        final(stack)@ == pushed_call(old(stack)@, user_stack as int, callback),
{
    let stack_bottom = user_stack - FRAME_WORDS;
    stack[stack_bottom + 7] = INITIAL_XPSR;
    stack[stack_bottom + 6] = callback | 1;
    stack[stack_bottom + 5] = INITIAL_LR;
    stack[stack_bottom + 3] = 0;
    stack[stack_bottom + 2] = 0;
    stack[stack_bottom + 1] = 0;
    stack[stack_bottom] = 0;
    assert(stack@ =~= pushed_call(old(stack)@, user_stack as int, callback));
    stack_bottom
}

/// A task: where its stack stands, and the registers r4-r11 it had when it last left.
pub struct Process {
    stack_ptr: usize,
    states: [usize; 8],
}

impl Process {
    /// The task's saved stack pointer (a word index into its stack).
    pub closed spec fn sp(&self) -> usize {
        self.stack_ptr
    }

    /// The task's saved registers r4-r11.
    pub closed spec fn regs(&self) -> Seq<usize> {
        self.states@
    }

    /// A task that starts at `callback` on a stack whose top word has index `stack_ptr`:
    /// its start frame is laid below that word and its saved registers are zero.
    pub fn new(stack: &mut [usize], stack_ptr: usize, callback: usize) -> (p: Process)
        requires
            FRAME_WORDS <= stack_ptr <= old(stack)@.len(),
        ensures
            p.sp() == stack_ptr - FRAME_WORDS,
            p.regs() == Seq::new(8, |i: int| 0usize),
            final(stack)@ == pushed_call(old(stack)@, stack_ptr as int, callback),
    {
        let p = Process { stack_ptr: push_function_call(stack, stack_ptr, callback), states: [0; 8] };
        assert(p.states@ =~= Seq::new(8, |i: int| 0usize));
        p
    }

    /// The task's stack pointer, which PSP receives when the task runs again.
    pub fn stack_ptr(&self) -> (sp: usize)
        ensures
            sp == self.sp(),
    {
        self.stack_ptr
    }

    /// The task's saved registers r4-r11, which are restored when the task runs again.
    pub fn states(&self) -> (regs: [usize; 8])
        ensures
            regs@ == self.regs(),
    {
        self.states
    }

    /// Records how the task left the processor when it trapped back to the kernel: the
    /// process stack pointer `psp` and its registers r4-r11, which the next switch restores.
    pub fn switch_to_task(&mut self, psp: usize, regs: [usize; 8])
        ensures
            final(self).sp() == psp,
            final(self).regs() == regs@,
    {
        self.stack_ptr = psp;
        self.states = regs;
    }
}

/// Where the supervisor call handler sends the processor: the kernel's call (which comes in
/// on the main stack) goes on to the task, any other call goes back to the kernel.
pub open spec fn svc_return(exc_return: u32) -> u32 {
    if exc_return == RETURN_TO_KERNEL {
        RETURN_TO_TASK
    } else {
        RETURN_TO_KERNEL
    }
}

/// The EXC_RETURN value the supervisor call handler returns with, given the one it was
/// entered with.
pub fn svc_handler(exc_return: u32) -> (target: u32)
    ensures
        target == svc_return(exc_return),
{
    if exc_return == RETURN_TO_KERNEL {
        RETURN_TO_TASK
    } else {
        RETURN_TO_KERNEL
    }
}

/// The EXC_RETURN value the SysTick handler returns with: always the kernel's, so that a
/// tick preempts whatever task runs.
pub fn systick_handler(exc_return: u32) -> (target: u32)
    ensures
        target == RETURN_TO_KERNEL,
{
    RETURN_TO_KERNEL
}

/// A freshly laid start frame makes the first exception return run `callback` in Thumb
/// state with r0-r3 zero and the link register holding only the Thumb bit, and leaves the
/// process stack pointer at the top the frame was laid under.
pub proof fn lemma_start_frame_enters_callback(s: Seq<usize>, top: int, callback: usize)
    requires
        8 <= top <= s.len(),
    ensures
        ({
            let (frame, sp) = unstack(pushed_call(s, top, callback), top - 8);
            &&& sp == top
            &&& frame.pc == callback | 1
            &&& frame.xpsr == INITIAL_XPSR
            &&& frame.lr == INITIAL_LR
            &&& frame.r0 == 0 && frame.r1 == 0 && frame.r2 == 0 && frame.r3 == 0
            &&& frame.r12 == s[top - 4]
        }),
{
}

/// Laying a start frame touches only the eight words below `top`.
pub proof fn lemma_start_frame_is_local(s: Seq<usize>, top: int, callback: usize, i: int)
    requires
        8 <= top <= s.len(),
        0 <= i < s.len(),
        i < top - 8 || top <= i,
    ensures
        pushed_call(s, top, callback)[i] == s[i],
        pushed_call(s, top, callback).len() == s.len(),
{
}

/// A supervisor call toggles between kernel and task: the kernel's call enters the task and
/// the task's call comes back to the kernel, so a second call undoes the first.
pub proof fn lemma_svc_round_trip(exc_return: u32)
    requires
        exc_return == RETURN_TO_KERNEL || exc_return == RETURN_TO_TASK,
    ensures
        svc_return(exc_return) != exc_return,
        svc_return(svc_return(exc_return)) == exc_return,
{
}

} // verus!
