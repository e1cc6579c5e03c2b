# preemptive

The verified core of a minimal preemptive kernel for the Cortex-M3 (STM32F103, "blue pill").

- `src/` is the library, proved with Verus: the tasks' workloads and the lines they print
  (`compute`, `decimal`, `tasks`, `counter`, `counting`, `busy`), what their rounds print
  one after the other (`stream`), the lengths of the busy waits (`delay`), task start frames and saved contexts
  (`context`), the round-robin dispatcher (`dispatch`), start-up memory initialisation
  (`startup`), and the decisions of the peripheral drivers (`clock`, `usart`, `led`).
- `app/` is the board glue: register accesses through `stm32f103xx` and `cortex_m`, the
  assembly of the context switch and of the exception handlers, and the dispatcher loop.
- `tests/` runs the library on concrete values.
