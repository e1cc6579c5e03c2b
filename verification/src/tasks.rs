use vstd::prelude::*;
use crate::compute::{fib, fib_spec, is_prime, is_prime_overflows, is_prime_spec};
use crate::decimal::{dec, digits_value, lemma_dec_reads_back, push_bytes, push_decimal};
use crate::stream::{lemma_rounds_append, lemma_rounds_concatenate, lemma_rounds_grow, rounds};

verus! {

/// What one round of a counting task prints, and the counter it goes on with (`None` when
/// counting on would overflow, where the task stops after printing).
pub struct TaskOutput {
    pub line: Vec<u8>,
    pub next: Option<u32>,
}

/// The counter value the Fibonacci task starts from.
pub const FIB_TASK_START: u32 = 0;

/// The counter value the primality task starts from.
pub const PRIME_TASK_START: u32 = 1;

/// The tag that starts every line of task number `k` (an ASCII digit): `taskk: `.
pub open spec fn task_tag(k: u8) -> Seq<u8> {
    seq!['t' as u8, 'a' as u8, 's' as u8, 'k' as u8, k, ':' as u8, ' ' as u8]
}

/// The line the Fibonacci task prints for `n`: `task1: fib(n)=value` and a newline.
pub open spec fn fib_line(n: nat) -> Seq<u8> {
    task_tag('1' as u8) + seq!['f' as u8, 'i' as u8, 'b' as u8, '(' as u8] + dec(n) + seq![')' as u8, '=' as u8] + dec(fib_spec(n)) + seq!['\n' as u8]
}

/// The text `true` or `false`.
pub open spec fn bool_text(b: bool) -> Seq<u8> {
    if b {
        seq!['t' as u8, 'r' as u8, 'u' as u8, 'e' as u8]
    } else {
        seq!['f' as u8, 'a' as u8, 'l' as u8, 's' as u8, 'e' as u8]
    }
}

/// The line the primality task prints for `n`: `task2: is_prime(n)=true` or `=false`, and a
/// newline.
pub open spec fn prime_line(n: nat) -> Seq<u8> {
    task_tag('2' as u8) + seq!['i' as u8, 's' as u8, '_' as u8, 'p' as u8, 'r' as u8, 'i' as u8, 'm' as u8, 'e' as u8, '(' as u8]
        + dec(n)
        + seq![')' as u8, '=' as u8]
        + bool_text(is_prime_spec(n))
        + seq!['\n' as u8]
}

/// One round of the Fibonacci task: the line it prints for the counter `n`, and `n + 1`.
pub fn task1(n: u32) -> (out: TaskOutput)
    requires
        n <= 46,
    ensures
        out.line@ == fib_line(n as nat),
        out.next == Some((n + 1) as u32),
{
    let value = fib(n);
    let mut line: Vec<u8> = Vec::new();
    push_bytes(&mut line, &['t' as u8, 'a' as u8, 's' as u8, 'k' as u8, '1' as u8, ':' as u8, ' ' as u8]);
    push_bytes(&mut line, &['f' as u8, 'i' as u8, 'b' as u8, '(' as u8]);
    push_decimal(&mut line, n);
    push_bytes(&mut line, &[')' as u8, '=' as u8]);
    push_decimal(&mut line, value);
    line.push('\n' as u8);
    assert(line@ =~= fib_line(n as nat));
    TaskOutput { line, next: Some(n + 1) }
}

/// One round of the primality task: the line it prints for the counter `n`, and `n + 1`;
/// after the largest `u32` there is no next counter.
pub fn task2(n: u32) -> (out: TaskOutput)
    requires
        !is_prime_overflows(n),
    ensures
        out.line@ == prime_line(n as nat),
        out.next == (if n < u32::MAX { Some((n + 1) as u32) } else { None }),
{
    let answer = is_prime(n);
    let mut line: Vec<u8> = Vec::new();
    push_bytes(&mut line, &['t' as u8, 'a' as u8, 's' as u8, 'k' as u8, '2' as u8, ':' as u8, ' ' as u8]);
    push_bytes(&mut line, &['i' as u8, 's' as u8, '_' as u8, 'p' as u8, 'r' as u8, 'i' as u8, 'm' as u8, 'e' as u8, '(' as u8]);
    push_decimal(&mut line, n);
    push_bytes(&mut line, &[')' as u8, '=' as u8]);
    if answer {
        push_bytes(&mut line, &['t' as u8, 'r' as u8, 'u' as u8, 'e' as u8]);
    } else {
        push_bytes(&mut line, &['f' as u8, 'a' as u8, 'l' as u8, 's' as u8, 'e' as u8]);
    }
    line.push('\n' as u8);
    assert(line@ =~= prime_line(n as nat));
    let next = if n < u32::MAX {
        Some(n + 1)
    } else {
        None
    };
    TaskOutput { line, next }
}

/// The Fibonacci task's line for counter `m`, as a function of the counter.
pub open spec fn fib_round() -> spec_fn(int) -> Seq<u8> {
    |m: int| fib_line(m as nat)
}

/// The primality task's line for counter `m`, as a function of the counter.
pub open spec fn prime_round() -> spec_fn(int) -> Seq<u8> {
    |m: int| prime_line(m as nat)
}

/// The Fibonacci task, started at its first counter, prints after `k` rounds the lines for
/// the counters 0 to `k - 1` one after the other; each round adds the next line, and what it
/// printed at any moment is a prefix of what it prints later.
pub proof fn lemma_fib_task_output(k: nat, j: nat)
    requires
        j <= k,
    ensures
        rounds(fib_round(), FIB_TASK_START as int, k) == Seq::new(k, |i: int| fib_line(i as nat)).flatten(),
        rounds(fib_round(), FIB_TASK_START as int, k + 1) == rounds(fib_round(), FIB_TASK_START as int, k)
            + fib_line(k),
        rounds(fib_round(), FIB_TASK_START as int, j).is_prefix_of(
            rounds(fib_round(), FIB_TASK_START as int, k),
        ),
{
    lemma_rounds_concatenate(fib_round(), FIB_TASK_START as int, k);
    assert(Seq::new(k, |i: int| fib_round()(FIB_TASK_START as int + i)) =~= Seq::new(
        k,
        |i: int| fib_line(i as nat),
    ));
    lemma_rounds_append(fib_round(), FIB_TASK_START as int, k);
    lemma_rounds_grow(fib_round(), FIB_TASK_START as int, j, k);
}

/// The primality task, started at its first counter, prints after `k` rounds the lines for
/// the counters 1 to `k` one after the other; each round adds the next line, and what it
/// printed at any moment is a prefix of what it prints later.
pub proof fn lemma_prime_task_output(k: nat, j: nat)
    requires
        j <= k,
    ensures
        rounds(prime_round(), PRIME_TASK_START as int, k) == Seq::new(
            k,
            |i: int| prime_line((i + 1) as nat),
        ).flatten(),
        rounds(prime_round(), PRIME_TASK_START as int, k + 1) == rounds(
            prime_round(),
            PRIME_TASK_START as int,
            k,
        ) + prime_line(k + 1),
        rounds(prime_round(), PRIME_TASK_START as int, j).is_prefix_of(
            rounds(prime_round(), PRIME_TASK_START as int, k),
        ),
{
    lemma_rounds_concatenate(prime_round(), PRIME_TASK_START as int, k);
    assert(Seq::new(k, |i: int| prime_round()(PRIME_TASK_START as int + i)) =~= Seq::new(
        k,
        |i: int| prime_line((i + 1) as nat),
    ));
    lemma_rounds_append(prime_round(), PRIME_TASK_START as int, k);
    lemma_rounds_grow(prime_round(), PRIME_TASK_START as int, j, k);
}

/// The Fibonacci task's line for `n` reads `task1: fib(`, the digits of `n`, `)=`, the digits
/// of the `n`-th Fibonacci term in full (no digit lost, no leading zero), and a newline.
pub proof fn lemma_fib_line_reads_back(n: nat)
    ensures
        ({
            let t = fib_line(n);
            let a = dec(n).len() as int;
            &&& t.subrange(0, 11) == seq![
                't' as u8, 'a' as u8, 's' as u8, 'k' as u8, '1' as u8, ':' as u8, ' ' as u8,
                'f' as u8, 'i' as u8, 'b' as u8, '(' as u8,
            ]
            &&& digits_value(t.subrange(11, 11 + a)) == n
            &&& t.subrange(11 + a, 13 + a) == seq![')' as u8, '=' as u8]
            &&& 13 + a < t.len() - 1
            &&& digits_value(t.subrange(13 + a, t.len() - 1)) == fib_spec(n)
            &&& t[13 + a] != 48
            &&& forall|k: int| 13 + a <= k < t.len() - 1 ==> 48 <= #[trigger] t[k] <= 57
            &&& t[t.len() - 1] == '\n' as u8
        }),
{
    lemma_dec_reads_back(n);
    lemma_dec_reads_back(fib_spec(n));
    assert(fib_spec(n) > 0) by {
        lemma_fib_positive(n);
    }
    let t = fib_line(n);
    let a = dec(n).len() as int;
    let v = dec(fib_spec(n));
    assert(t.subrange(11, 11 + a) =~= dec(n));
    assert(t.subrange(13 + a, t.len() - 1) =~= v);
    assert forall|k: int| 13 + a <= k < t.len() - 1 implies 48 <= #[trigger] t[k] <= 57 by {
        assert(t[k] == v[k - 13 - a]);
    }
}

/// Every Fibonacci term is positive.
proof fn lemma_fib_positive(n: nat)
    ensures
        fib_spec(n) >= 1,
{
    crate::compute::lemma_fib_monotonic(0, n);
}

/// The primality task's line for `n` reads `task2: is_prime(`, the digits of `n`, `)=`, and
/// then `true` exactly when `n` is 1 or a prime (at least 2, with no divisor between 2 and
/// `n - 1`), `false` otherwise, and a newline.
pub proof fn lemma_prime_line_verdict(n: nat)
    ensures
        ({
            let t = prime_line(n);
            let a = dec(n).len() as int;
            &&& t.subrange(0, 16) == seq![
                't' as u8, 'a' as u8, 's' as u8, 'k' as u8, '2' as u8, ':' as u8, ' ' as u8,
                'i' as u8, 's' as u8, '_' as u8, 'p' as u8, 'r' as u8, 'i' as u8, 'm' as u8,
                'e' as u8, '(' as u8,
            ]
            &&& digits_value(t.subrange(16, 16 + a)) == n
            &&& t.subrange(16 + a, 18 + a) == seq![')' as u8, '=' as u8]
            &&& t.subrange(18 + a, t.len() as int) == (if n == 1 || (n >= 2 && forall|d: nat|
                2 <= d < n ==> #[trigger] (n % d) != 0) {
                seq!['t' as u8, 'r' as u8, 'u' as u8, 'e' as u8, '\n' as u8]
            } else {
                seq!['f' as u8, 'a' as u8, 'l' as u8, 's' as u8, 'e' as u8, '\n' as u8]
            })
        }),
{
    lemma_dec_reads_back(n);
    let t = prime_line(n);
    let a = dec(n).len() as int;
    assert(t.subrange(16, 16 + a) =~= dec(n));
    if is_prime_spec(n) {
        assert(t.subrange(18 + a, t.len() as int) =~= seq![
            't' as u8, 'r' as u8, 'u' as u8, 'e' as u8, '\n' as u8,
        ]);
    } else {
        assert(t.subrange(18 + a, t.len() as int) =~= seq![
            'f' as u8, 'a' as u8, 'l' as u8, 's' as u8, 'e' as u8, '\n' as u8,
        ]);
    }
}

} // verus!
