use vstd::prelude::*;

verus! {

/// The busy wait between the lines of the two announcing tasks, in no-operations.
pub const BUSY_TASK_DELAY: u32 = 1_000_000;

/// The busy wait of the counting task's work, and between the lines of the counting program,
/// in no-operations.
pub const LONG_DELAY: u32 = 20_000_000;

/// The busy wait between two switches of the blinking LED, in no-operations.
pub const BLINK_DELAY: u32 = 2_000;

} // verus!
