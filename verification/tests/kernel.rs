use preemptive::clock::{clock_init_step, ClockInit};
use preemptive::context::{
    push_function_call, svc_handler, systick_handler, Process, INITIAL_XPSR, RETURN_TO_KERNEL,
    RETURN_TO_TASK,
};
use preemptive::dispatch::{task_heading, kernel_started, next_task, spawn, TASK_NUM, TASK_STACK_SIZE};
use preemptive::led;
use preemptive::startup::{init_data, reset_handler, zero_bss, SectionLayout};
use preemptive::usart::{brr_divider, cr1_word, TxAction, APB1_CLOCK_HZ, BAUD_RATE, USART};

#[test]
fn start_frame_layout() {
    let mut stack: Vec<usize> = (0..20).map(|i| 1000 + i).collect();
    let bottom = push_function_call(&mut stack, 16, 0x0800_0100);
    assert_eq!(bottom, 8);
    assert_eq!(&stack[0..8], &[1000, 1001, 1002, 1003, 1004, 1005, 1006, 1007]);
    assert_eq!(&stack[8..16], &[0, 0, 0, 0, 1012, 1, 0x0800_0101, 0x0100_0000]);
    assert_eq!(&stack[16..20], &[1016, 1017, 1018, 1019]);
}

#[test]
fn start_frame_at_stack_end() {
    let mut stack = vec![7usize; 8];
    assert_eq!(push_function_call(&mut stack, 8, 0x41), 0);
    assert_eq!(stack, vec![0, 0, 0, 0, 7, 1, 0x41, INITIAL_XPSR]);
}

#[test]
fn process_records_context() {
    let mut stack = vec![0usize; 12];
    let mut p = Process::new(&mut stack, 11, 0x200);
    assert_eq!(p.stack_ptr(), 3);
    assert_eq!(p.states(), [0; 8]);
    assert_eq!(stack[9], 0x201);
    p.switch_to_task(1, [4, 5, 6, 7, 8, 9, 10, 11]);
    assert_eq!(p.stack_ptr(), 1);
    assert_eq!(p.states(), [4, 5, 6, 7, 8, 9, 10, 11]);
}

#[test]
fn exception_return_targets() {
    assert_eq!(svc_handler(RETURN_TO_KERNEL), RETURN_TO_TASK);
    assert_eq!(svc_handler(RETURN_TO_TASK), RETURN_TO_KERNEL);
    assert_eq!(svc_handler(svc_handler(RETURN_TO_KERNEL)), RETURN_TO_KERNEL);
    assert_eq!(svc_handler(0xffff_fff1), RETURN_TO_KERNEL);
    assert_eq!(systick_handler(RETURN_TO_TASK), 0xffff_fff9);
    assert_eq!(systick_handler(RETURN_TO_KERNEL), 0xffff_fff9);
}

#[test]
fn task_spawn_uses_last_word() {
    let mut stack = [0usize; TASK_STACK_SIZE];
    let p = spawn(&mut stack, 0x0800_0400);
    assert_eq!(p.stack_ptr(), 91);
    assert_eq!(stack[97], 0x0800_0401);
    assert_eq!(stack[98], 0x0100_0000);
    assert_eq!(stack[99], 0);
}

#[test]
fn dispatcher_round_robin() {
    assert_eq!(TASK_NUM, 2);
    assert_eq!(next_task(0), 1);
    assert_eq!(next_task(1), 0);
    assert_eq!(next_task(next_task(0)), 0);
    assert_ne!(next_task(1), 1);
    assert_eq!(kernel_started(), b"Kernel started!\n".to_vec());
    assert_eq!(task_heading(0), b"\nExecuting task1!\n".to_vec());
    assert_eq!(task_heading(1), b"\nExecuting task2!\n".to_vec());
}

#[test]
fn startup_copies_and_clears() {
    let image: Vec<u32> = vec![9, 9, 11, 12, 13];
    let mut ram: Vec<u32> = vec![5; 8];
    init_data(&image, 2, &mut ram, 1, 4);
    assert_eq!(ram, vec![5, 11, 12, 13, 5, 5, 5, 5]);
    zero_bss(&mut ram, 4, 7);
    assert_eq!(ram, vec![5, 11, 12, 13, 0, 0, 0, 5]);
    init_data(&image, 0, &mut ram, 3, 3);
    zero_bss(&mut ram, 6, 2);
    assert_eq!(ram, vec![5, 11, 12, 13, 0, 0, 0, 5]);
}

#[test]
fn reset_prepares_sections() {
    let image: Vec<u32> = vec![0xaa, 0xbb];
    let mut ram: Vec<u32> = vec![0xff; 6];
    let layout = SectionLayout { sidata: 0, sdata: 0, edata: 2, sbss: 2, ebss: 5 };
    reset_handler(&image, &mut ram, &layout);
    assert_eq!(ram, vec![0xaa, 0xbb, 0, 0, 0, 0xff]);
}

#[test]
fn led_words() {
    assert_eq!(led::set(true), 0x1000_0000);
    assert_eq!(led::set(false), 0x0000_1000);
}

#[test]
fn usart_sends_in_order() {
    let text = b"hi!";
    let events = [false, true, false, false, true, true, true];
    let mut sent = 0usize;
    let mut out: Vec<u8> = Vec::new();
    let mut finished = false;
    for txe in events {
        match USART.write_str_step(text, sent, txe) {
            TxAction::Wait => assert!(!txe),
            TxAction::Send(b) => {
                out.push(b);
                sent += 1;
            }
            TxAction::Finished => {
                finished = true;
                break;
            }
        }
    }
    assert!(finished);
    assert_eq!(out, text.to_vec());
    assert_eq!(USART.write_str_step(b"", 0, true), TxAction::Finished);
    assert_eq!(USART.write_str_step(b"a", 0, false), TxAction::Wait);
}

#[test]
fn clock_sequence_waits_for_pll() {
    let mut stage = ClockInit::Prescalers;
    let mut seen = vec![stage];
    for (locked, selected) in [
        (false, false),
        (false, false),
        (false, false),
        (false, false),
        (false, false),
        (true, false),
        (false, false),
        (false, false),
        (false, true),
    ] {
        stage = clock_init_step(&stage, locked, selected);
        seen.push(stage);
    }
    assert_eq!(
        seen,
        vec![
            ClockInit::Prescalers,
            ClockInit::PllMultiplier,
            ClockInit::FlashWaitStates,
            ClockInit::PllOn,
            ClockInit::AwaitPllLock,
            ClockInit::AwaitPllLock,
            ClockInit::SwitchToPll,
            ClockInit::AwaitSwitch,
            ClockInit::AwaitSwitch,
            ClockInit::Ready,
        ]
    );
    assert_eq!(clock_init_step(&ClockInit::Ready, false, false), ClockInit::Ready);
}

#[test]
fn baud_rate_divider() {
    assert_eq!(brr_divider(APB1_CLOCK_HZ, BAUD_RATE), (19, 8));
    assert_eq!(brr_divider(8_000_000, 9600), (52, 1));
    assert_eq!(brr_divider(0, 1), (0, 0));
}

#[test]
fn usart_control_word() {
    let w = cr1_word();
    assert_eq!(w, 0x200c);
    assert_eq!(w & (1 << 12), 0);
    assert_eq!(w & (1 << 10), 0);
}
