use preemptive::busy;
use preemptive::counter::{entering_kernel, COUNTER_TASK_START};
use preemptive::counting::counting;
use preemptive::delay::{BUSY_TASK_DELAY, LONG_DELAY};
use preemptive::counter::task;
use preemptive::tasks::{task1, task2, FIB_TASK_START, PRIME_TASK_START};

#[test]
fn fib_task_lines() {
    let out = task1(0);
    assert_eq!(out.line, b"task1: fib(0)=1\n".to_vec());
    assert_eq!(out.next, Some(1));
    let out = task1(5);
    assert_eq!(out.line, b"task1: fib(5)=8\n".to_vec());
    assert_eq!(out.next, Some(6));
    let out = task1(46);
    assert_eq!(out.line, b"task1: fib(46)=2971215073\n".to_vec());
    assert_eq!(out.next, Some(47));
}

#[test]
fn prime_task_lines() {
    let out = task2(1);
    assert_eq!(out.line, b"task2: is_prime(1)=true\n".to_vec());
    assert_eq!(out.next, Some(2));
    let out = task2(4);
    assert_eq!(out.line, b"task2: is_prime(4)=false\n".to_vec());
    assert_eq!(out.next, Some(5));
    let out = task2(0);
    assert_eq!(out.line, b"task2: is_prime(0)=false\n".to_vec());
}

#[test]
fn counter_task_rounds() {
    let round = task(0);
    assert_eq!(round.before_delay, b"Starting task n=(0)\nWorking\n".to_vec());
    assert_eq!(round.after_delay, b"Work is done\n".to_vec());
    assert_eq!(round.delay, 20_000_000);
    assert_eq!(round.next, 1);
    let round = task(41);
    assert_eq!(round.before_delay, b"Starting task n=(41)\nWorking\n".to_vec());
    assert_eq!(round.next, 42);
    let round = task(-3);
    assert_eq!(round.before_delay, b"Starting task n=(-3)\nWorking\n".to_vec());
    assert_eq!(round.next, -2);
}

#[test]
fn busy_task_lines() {
    let round = busy::task1();
    assert_eq!(round.line, b"Executing task1!\n".to_vec());
    assert_eq!(round.delay, 1_000_000);
    let round = busy::task2();
    assert_eq!(round.line, b"Executing task2!\n".to_vec());
    assert_eq!(round.delay, BUSY_TASK_DELAY);
}

#[test]
fn task_rounds_from_their_starts() {
    let mut fib_lines: Vec<u8> = Vec::new();
    let mut n = FIB_TASK_START;
    for _ in 0..6 {
        let out = task1(n);
        fib_lines.extend(out.line);
        n = out.next.unwrap();
    }
    assert_eq!(
        fib_lines,
        b"task1: fib(0)=1\ntask1: fib(1)=1\ntask1: fib(2)=2\ntask1: fib(3)=3\ntask1: fib(4)=5\ntask1: fib(5)=8\n".to_vec()
    );
    let mut prime_lines: Vec<u8> = Vec::new();
    let mut n = PRIME_TASK_START;
    for _ in 0..6 {
        let out = task2(n);
        prime_lines.extend(out.line);
        n = out.next.unwrap();
    }
    assert_eq!(
        prime_lines,
        b"task2: is_prime(1)=true\ntask2: is_prime(2)=true\ntask2: is_prime(3)=true\ntask2: is_prime(4)=false\ntask2: is_prime(5)=true\ntask2: is_prime(6)=false\n".to_vec()
    );
}

#[test]
fn prime_task_last_counter() {
    let out = task2(u32::MAX);
    assert_eq!(out.line, b"task2: is_prime(4294967295)=false\n".to_vec());
    assert_eq!(out.next, None);
}

#[test]
fn counter_task_stream() {
    let mut text: Vec<u8> = Vec::new();
    let mut n = COUNTER_TASK_START;
    for _ in 0..2 {
        let round = task(n);
        assert_eq!(round.delay, LONG_DELAY);
        text.extend(round.before_delay);
        text.extend(round.after_delay);
        n = round.next;
    }
    assert_eq!(
        text,
        b"Starting task n=(0)\nWorking\nWork is done\nStarting task n=(1)\nWorking\nWork is done\n".to_vec()
    );
    assert_eq!(entering_kernel(), b"Entering kernel\n".to_vec());
}

#[test]
fn counting_lines() {
    let mut text: Vec<u8> = Vec::new();
    let mut n = 0;
    for _ in 0..3 {
        let round = counting(n);
        assert_eq!(round.delay, 20_000_000);
        text.extend(round.line);
        n = round.next;
    }
    assert_eq!(text, b"Counting: 0\nCounting: 1\nCounting: 2\n".to_vec());
    assert_eq!(counting(-7).line, b"Counting: -7\n".to_vec());
    assert_eq!(counting(i32::MAX - 1).next, i32::MAX);
}

#[test]
fn busy_task_stream() {
    let mut text: Vec<u8> = Vec::new();
    for _ in 0..3 {
        text.extend(busy::task2().line);
    }
    assert_eq!(text, b"Executing task2!\nExecuting task2!\nExecuting task2!\n".to_vec());
}
