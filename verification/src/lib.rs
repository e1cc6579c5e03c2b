/// Decimal text of integers, as the serial console shows them.
pub mod decimal;
/// The workloads of the tasks: Fibonacci numbers and a primality test.
pub mod compute;
/// One round of each of the two tasks that the kernel runs: the line it prints.
pub mod tasks;
/// One round of the counting task that demonstrates SysTick preemption.
pub mod counter;
/// One round of the counting loop that demonstrates the serial console.
pub mod counting;
/// The two tasks that only announce themselves between busy waits.
pub mod busy;
/// Task start frames, saved task contexts and the exception handlers' return targets.
pub mod context;
/// The round-robin dispatcher and the lines the kernel prints.
pub mod dispatch;
/// Start-up: filling the data section and clearing the zero-initialised section.
pub mod startup;
/// The order of the clock set-up and its waits on the PLL.
pub mod clock;
/// The serial transmitter: bytes out in order, each once the data register is free.
pub mod usart;
/// The LED on PB12 and the bit set/reset word that drives it.
pub mod led;
/// What the rounds of a task print, one round after the other.
pub mod stream;
/// The lengths of the busy waits, counted in no-operations.
pub mod delay;
