use vstd::prelude::*;

verus! {

/// The stages of bringing the system clock up to the PLL, in the order they happen.
#[derive(Debug, Clone, Copy, PartialEq, Eq, Structural)]
pub enum ClockInit {
    /// Write the configuration register with the bus prescalers: AHB and APB2 undivided,
    /// APB1 halved.
    Prescalers,
    /// Write the configuration register with the PLL input undivided and multiplied by nine.
    /// The write sets every other field of the register to its reset value, the prescalers
    /// too, so APB1 runs undivided from here on.
    PllMultiplier,
    /// Give the flash two wait states and turn its prefetch buffer on.
    FlashWaitStates,
    /// Turn the PLL on.
    PllOn,
    /// Poll until the PLL reports it is locked.
    AwaitPllLock,
    /// Write the configuration register with the PLL as the system clock (the PLL fields keep
    /// their value: they cannot change while the PLL runs).
    SwitchToPll,
    /// Poll until the clock switch reports the PLL as the system clock.
    AwaitSwitch,
    /// The system clock runs from the PLL.
    Ready,
}

/// The position of a stage in the sequence.
pub open spec fn stage_rank(s: ClockInit) -> nat {
    match s {
        ClockInit::Prescalers => 0,
        ClockInit::PllMultiplier => 1,
        ClockInit::FlashWaitStates => 2,
        ClockInit::PllOn => 3,
        ClockInit::AwaitPllLock => 4,
        ClockInit::SwitchToPll => 5,
        ClockInit::AwaitSwitch => 6,
        ClockInit::Ready => 7,
    }
}

/// The stage that follows `s` once its work is done, given what the polls read: whether the
/// PLL is locked and whether the PLL is the selected system clock. A polling stage stays
/// until its poll succeeds; the register writes follow each other unconditionally.
pub open spec fn clock_next(s: ClockInit, pll_locked: bool, pll_selected: bool) -> ClockInit {
    match s {
        ClockInit::Prescalers => ClockInit::PllMultiplier,
        ClockInit::PllMultiplier => ClockInit::FlashWaitStates,
        ClockInit::FlashWaitStates => ClockInit::PllOn,
        ClockInit::PllOn => ClockInit::AwaitPllLock,
        ClockInit::AwaitPllLock => if pll_locked {
            ClockInit::SwitchToPll
        } else {
            ClockInit::AwaitPllLock
        },
        ClockInit::SwitchToPll => ClockInit::AwaitSwitch,
        ClockInit::AwaitSwitch => if pll_selected {
            ClockInit::Ready
        } else {
            ClockInit::AwaitSwitch
        },
        ClockInit::Ready => ClockInit::Ready,
    }
}

/// One step of the clock set-up: the stage after `stage`, given the two poll results.
pub fn clock_init_step(stage: &ClockInit, pll_locked: bool, pll_selected: bool) -> (next: ClockInit)
    ensures
        next == clock_next(*stage, pll_locked, pll_selected),
        *stage is AwaitPllLock ==> (next is SwitchToPll <==> pll_locked),
        *stage is AwaitPllLock ==> (next is AwaitPllLock <==> !pll_locked),
        *stage is AwaitSwitch ==> (next is Ready <==> pll_selected),
        *stage is AwaitSwitch ==> (next is AwaitSwitch <==> !pll_selected),
{
    match stage {
        ClockInit::Prescalers => ClockInit::PllMultiplier,
        ClockInit::PllMultiplier => ClockInit::FlashWaitStates,
        ClockInit::FlashWaitStates => ClockInit::PllOn,
        ClockInit::PllOn => ClockInit::AwaitPllLock,
        ClockInit::AwaitPllLock => if pll_locked {
            ClockInit::SwitchToPll
        } else {
            ClockInit::AwaitPllLock
        },
        ClockInit::SwitchToPll => ClockInit::AwaitSwitch,
        ClockInit::AwaitSwitch => if pll_selected {
            ClockInit::Ready
        } else {
            ClockInit::AwaitSwitch
        },
        ClockInit::Ready => ClockInit::Ready,
    }
}

/// The stages run in order: a step never goes back and never skips a stage, the PLL is
/// selected as the system clock only after a poll found it locked, and the set-up is ready
/// only after a poll found the PLL selected.
pub proof fn lemma_clock_steps_in_order(s: ClockInit, pll_locked: bool, pll_selected: bool)
    ensures
        ({
            let n = clock_next(s, pll_locked, pll_selected);
            &&& stage_rank(n) == stage_rank(s) || stage_rank(n) == stage_rank(s) + 1
            &&& stage_rank(s) < 7 && !(s is AwaitPllLock) && !(s is AwaitSwitch) ==> stage_rank(n)
                == stage_rank(s) + 1
            &&& n is SwitchToPll && !(s is SwitchToPll) ==> s is AwaitPllLock && pll_locked
            &&& n is Ready && !(s is Ready) ==> s is AwaitSwitch && pll_selected
        }),
{
}

/// Each poll waits for its own condition only: the lock poll ends exactly when the PLL is
/// locked, whatever the switch status reads, and the switch poll ends the set-up exactly when
/// the PLL is the selected system clock, whatever the lock status reads. The register writes
/// go on to the next stage whatever the polls read.
pub proof fn lemma_clock_polls_wait_for_their_own_condition(
    s: ClockInit,
    locked: bool,
    selected: bool,
    other_locked: bool,
    other_selected: bool,
)
    ensures
        clock_next(ClockInit::AwaitPllLock, locked, selected) == (if locked {
            ClockInit::SwitchToPll
        } else {
            ClockInit::AwaitPllLock
        }),
        clock_next(ClockInit::AwaitSwitch, locked, selected) == (if selected {
            ClockInit::Ready
        } else {
            ClockInit::AwaitSwitch
        }),
        clock_next(ClockInit::AwaitPllLock, locked, selected) == clock_next(
            ClockInit::AwaitPllLock,
            locked,
            other_selected,
        ),
        clock_next(ClockInit::AwaitSwitch, locked, selected) == clock_next(
            ClockInit::AwaitSwitch,
            other_locked,
            selected,
        ),
        !(s is AwaitPllLock) && !(s is AwaitSwitch) ==> clock_next(s, locked, selected)
            == clock_next(s, other_locked, other_selected),
        stage_rank(s) < 7 && !(s is AwaitPllLock) && !(s is AwaitSwitch) ==> stage_rank(
            clock_next(s, locked, selected),
        ) == stage_rank(s) + 1,
{
}

} // verus!
