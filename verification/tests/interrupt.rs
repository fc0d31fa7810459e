use kernel::interrupt::init;
use kernel::interrupt::init_gdt;
use kernel::interrupt::init_idt;
use kernel::interrupt::breakpoint_handler;
use kernel::interrupt::double_fault_handler;
use kernel::interrupt::ChainedPics;
use kernel::interrupt::HandlerDisposition;
use kernel::interrupt::HandlerReport;
use kernel::interrupt::InterruptFrame;
use kernel::interrupt::InterruptIndex;
use kernel::interrupt::DOUBLE_FAULT_IST_INDEX;
use kernel::interrupt::DOUBLE_FAULT_STACK_SIZE;
use kernel::interrupt::VECTOR_BREAKPOINT;
use kernel::interrupt::VECTOR_DOUBLE_FAULT;
use kernel::interrupt::VECTOR_KEYBOARD;
use kernel::interrupt::VECTOR_TIMER;
use kernel::keyboard::KeyOutput;

fn frame() -> InterruptFrame {
    InterruptFrame {
        instruction_pointer: 0x1234,
        code_segment: 8,
        cpu_flags: 0x202,
        stack_pointer: 0x8000,
        stack_segment: 0,
    }
}

/// Every populated exception vector except breakpoint and double fault
/// halts the processor and never resumes the interrupted code.
#[test]
fn fatal_exception_vectors_all_halt() {
    let idt = init_idt();
    let fatal_vectors = [1u8, 5, 10, 12, 13, 14, 17, 20, 29];
    for &v in fatal_vectors.iter() {
        let entry = idt.get(v).expect("vector must be populated");
        assert_eq!(entry.disposition, HandlerDisposition::Halt);
        assert_eq!(entry.eoi_vector, None);
    }
    let mut ctx = init(0x10000);
    for &v in fatal_vectors.iter() {
        let out = ctx.dispatch_interrupt(v, &frame(), Some(0), None, None).expect("handled");
        assert_eq!(out.disposition, HandlerDisposition::Halt);
        assert_eq!(out.eoi, None);
    }
}

/// The breakpoint returns control with no state change.
#[test]
fn breakpoint_resumes_without_state_change() {
    let idt = init_idt();
    let entry = idt.get(VECTOR_BREAKPOINT).expect("breakpoint populated");
    assert_eq!(entry.disposition, HandlerDisposition::Resume);
    assert_eq!(entry.ist_index, None);

    let out = breakpoint_handler(&frame());
    assert_eq!(out.disposition, HandlerDisposition::Resume);
    assert_eq!(out.eoi, None);

    let mut ctx = init(0x10000);
    let ticks_before = ctx.timer_ticks();
    let out = ctx.dispatch_interrupt(VECTOR_BREAKPOINT, &frame(), None, None, None).unwrap();
    assert_eq!(out.disposition, HandlerDisposition::Resume);
    assert_eq!(ctx.timer_ticks(), ticks_before);
}

/// The double fault is bound to the dedicated stack slot, and that slot
/// holds the top of the reserved emergency stack.
#[test]
fn double_fault_runs_on_the_emergency_stack() {
    let idt = init_idt();
    let entry = idt.get(VECTOR_DOUBLE_FAULT).expect("double fault populated");
    assert_eq!(entry.disposition, HandlerDisposition::Halt);
    assert_eq!(entry.ist_index, Some(DOUBLE_FAULT_IST_INDEX));

    let stack_start: u64 = 0x8_0000;
    let tables = init_gdt(stack_start);
    assert_eq!(
        tables.interrupt_stack_entry(DOUBLE_FAULT_IST_INDEX as usize),
        stack_start + DOUBLE_FAULT_STACK_SIZE
    );
    // stacks grow downward: the slot records the region's end
    assert_eq!(DOUBLE_FAULT_STACK_SIZE, 4096 * 5);

    let out = double_fault_handler(&frame(), 0);
    assert_eq!(out.disposition, HandlerDisposition::Halt);
}

#[test]
fn segment_registers_are_reloaded_after_the_table_switch() {
    let tables = init_gdt(0x8_0000);
    let selectors = tables.selector_values();
    assert_eq!(tables.code_segment_value(), selectors.code_selector);
    assert_eq!(tables.stack_segment_value(), 0);
    assert_ne!(selectors.code_selector, selectors.tss_selector);
}

/// A simulated timer tick increments the counter exactly once and ends
/// with end-of-interrupt for the timer vector; a second tick is still
/// delivered and counted, so the controller was re-armed.
#[test]
fn timer_ticks_count_once_each_and_acknowledge_the_timer_vector() {
    let mut ctx = init(0x10000);
    assert_eq!(ctx.timer_ticks(), 0);

    let out = ctx.timer_interrupt_handler();
    assert_eq!(ctx.timer_ticks(), 1);
    assert_eq!(out.eoi, Some(VECTOR_TIMER));
    assert_eq!(out.disposition, HandlerDisposition::Resume);

    let out = ctx.timer_interrupt_handler();
    assert_eq!(ctx.timer_ticks(), 2);
    assert_eq!(out.eoi, Some(VECTOR_TIMER));

    let out = ctx.dispatch_interrupt(VECTOR_TIMER, &frame(), None, None, None).unwrap();
    assert_eq!(ctx.timer_ticks(), 3);
    assert_eq!(out.eoi, Some(VECTOR_TIMER));
}

/// The keyboard handler decodes the port byte and acknowledges exactly
/// the keyboard vector, as its last action.
#[test]
fn keyboard_interrupt_reports_the_key_and_acknowledges_its_vector() {
    let mut ctx = init(0x10000);
    let out = ctx.keyboard_interrupt_handler(0x1E);
    assert_eq!(out.eoi, Some(VECTOR_KEYBOARD));
    assert_eq!(out.disposition, HandlerDisposition::Resume);
    assert_eq!(out.report, Some(HandlerReport::Key(KeyOutput::Character('a'))));

    let out = ctx.dispatch_interrupt(VECTOR_KEYBOARD, &frame(), None, None, Some(0x9E)).unwrap();
    assert_eq!(out.eoi, Some(VECTOR_KEYBOARD));
    assert_eq!(out.report, None);
}

#[test]
fn unpopulated_vectors_are_not_dispatched() {
    let mut ctx = init(0x10000);
    assert!(ctx.dispatch_interrupt(2, &frame(), None, None, None).is_none());
    assert!(ctx.dispatch_interrupt(255, &frame(), None, None, None).is_none());
    assert!(ctx.idt_slot(200).is_none());
}

#[test]
fn page_fault_report_carries_the_accessed_address() {
    let mut ctx = init(0x10000);
    let out = ctx
        .dispatch_interrupt(14, &frame(), Some(0b10), Some(0xDEAD_0000), None)
        .expect("handled");
    assert_eq!(out.disposition, HandlerDisposition::Halt);
    assert_eq!(
        out.report,
        Some(HandlerReport::Exception {
            vector: 14,
            frame: frame(),
            error_code: Some(0b10),
            accessed_address: Some(0xDEAD_0000),
        })
    );
}

#[test]
fn interrupt_lines_map_to_the_remapped_vectors() {
    assert_eq!(u8::from(InterruptIndex::Timer), 32);
    assert_eq!(u8::from(InterruptIndex::Keyboard), 33);
    assert_eq!(usize::from(InterruptIndex::Timer), 32);
    assert_eq!(usize::from(InterruptIndex::Keyboard), 33);
    assert_eq!(InterruptIndex::Timer.vector(), VECTOR_TIMER);
    assert_eq!(InterruptIndex::Keyboard.vector(), VECTOR_KEYBOARD);
}

#[test]
fn controllers_answer_for_their_remapped_ranges_only() {
    let mut pics = ChainedPics::new(32, 40);
    assert!(pics.initialize().is_ok());
    assert!(pics.initialize().is_err());
    for v in 0..32u8 {
        assert!(!pics.handles_interrupt(v));
    }
    for v in 32..48u8 {
        assert!(pics.handles_interrupt(v));
    }
    assert!(!pics.handles_interrupt(48));
}
