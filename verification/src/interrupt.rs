//! Interrupt and exception subsystem: descriptor tables, the interrupt
//! vector table, the chained interrupt controller pair, and vectored
//! dispatch.
//!
//! The hardware-facing registers (segment selectors, the table-load and
//! port instructions) are driven outside this crate; here the tables and
//! the dispatch rules are built as values whose invariants are proved:
//! which vector runs which handler, which handlers halt, which stack the
//! double-fault handler runs on, and that every hardware handler signals
//! end-of-interrupt for exactly the vector it handled, as its last action.

use vstd::prelude::*;

use crate::keyboard::DecodeError;
use crate::keyboard::KeyOutput;
use crate::keyboard::KeyboardDecoder;
use crate::keyboard::ScancodeOutcome;

verus! {

/// First vector of the master controller: the eight lines of the master
/// occupy vectors 32 to 39, clear of the CPU exception range below 32.
pub const PIC_1_OFFSET: u8 = 32;

/// First vector of the slave controller, chained behind the master.
pub const PIC_2_OFFSET: u8 = PIC_1_OFFSET + 8;

/// Vector of the timer line, the master controller's first.
pub const VECTOR_TIMER: u8 = PIC_1_OFFSET;

/// Vector of the keyboard line, the master controller's second.
pub const VECTOR_KEYBOARD: u8 = PIC_1_OFFSET + 1;

/// Slot of the interrupt stack table reserved for the double fault.
pub const DOUBLE_FAULT_IST_INDEX: u16 = 0;

/// Bytes of the dedicated double-fault stack.
pub const DOUBLE_FAULT_STACK_SIZE: u64 = 4096 * 5;

/// Vector numbers of the CPU exceptions this kernel installs handlers
/// for.
pub const VECTOR_DEBUG: u8 = 1;

pub const VECTOR_BREAKPOINT: u8 = 3;

pub const VECTOR_BOUND_RANGE_EXCEEDED: u8 = 5;

pub const VECTOR_DOUBLE_FAULT: u8 = 8;

pub const VECTOR_INVALID_TSS: u8 = 10;

pub const VECTOR_STACK_SEGMENT_FAULT: u8 = 12;

pub const VECTOR_GENERAL_PROTECTION_FAULT: u8 = 13;

pub const VECTOR_PAGE_FAULT: u8 = 14;

pub const VECTOR_ALIGNMENT_CHECK: u8 = 17;

pub const VECTOR_VIRTUALIZATION: u8 = 20;

pub const VECTOR_VMM_COMMUNICATION: u8 = 29;

/// The hardware interrupt lines this kernel consumes.
#[derive(Debug, Copy, Clone, PartialEq, Eq, Structural)]
pub enum InterruptIndex {
    Timer,
    Keyboard,
}

impl InterruptIndex {
    /// The CPU vector the line is delivered on after remapping.
    pub open spec fn spec_vector(self) -> u8 {
        match self {
            InterruptIndex::Timer => VECTOR_TIMER,
            InterruptIndex::Keyboard => VECTOR_KEYBOARD,
        }
    }

    /// The CPU vector the line is delivered on after remapping.
    pub fn vector(self) -> (v: u8)
        ensures
            v == self.spec_vector(),
    {
        match self {
            InterruptIndex::Timer => VECTOR_TIMER,
            InterruptIndex::Keyboard => VECTOR_KEYBOARD,
        }
    }
}

impl core::convert::From<InterruptIndex> for u8 {
    fn from(value: InterruptIndex) -> (v: u8) {
        value.vector()
    }
}

impl vstd::std_specs::convert::FromSpecImpl<InterruptIndex> for u8 {
    open spec fn obeys_from_spec() -> bool {
        true
    }

    open spec fn from_spec(value: InterruptIndex) -> u8 {
        value.spec_vector()
    }
}

impl core::convert::From<InterruptIndex> for usize {
    fn from(value: InterruptIndex) -> (v: usize) {
        value.vector() as usize
    }
}

impl vstd::std_specs::convert::FromSpecImpl<InterruptIndex> for usize {
    open spec fn obeys_from_spec() -> bool {
        true
    }

    open spec fn from_spec(value: InterruptIndex) -> usize {
        value.spec_vector() as usize
    }
}

/// The stack frame the CPU pushes when a vector fires.
#[derive(Debug, Clone, Copy, PartialEq, Eq, Structural)]
pub struct InterruptFrame {
    pub instruction_pointer: u64,
    pub code_segment: u64,
    pub cpu_flags: u64,
    pub stack_pointer: u64,
    pub stack_segment: u64,
}

/// What a handler does once it has run.
#[derive(Debug, Clone, Copy, PartialEq, Eq, Structural)]
pub enum HandlerDisposition {
    /// Dump diagnostics and halt: the processor's protection state may be
    /// inconsistent and must not be resumed.
    Halt,
    /// Return to the interrupted instruction stream.
    Resume,
}

/// One populated slot of the vector table: what the handler does, which
/// dedicated stack it runs on, and which vector it must acknowledge.
#[derive(Debug, Clone, Copy, PartialEq, Eq, Structural)]
pub struct HandlerEntry {
    /// Whether the handler halts or resumes the interrupted code.
    pub disposition: HandlerDisposition,
    /// Index into the interrupt stack table, forcing a stack switch.
    pub ist_index: Option<u16>,
    /// The vector for which end-of-interrupt must be signalled, as the
    /// handler's last action; `None` for CPU exceptions.
    pub eoi_vector: Option<u8>,
}

/// The slot the kernel installs for each vector: the registration table
/// that binds vector numbers to handlers, stack switches and
/// end-of-interrupt duties in one place.
pub open spec fn installed_entry(v: u8) -> Option<HandlerEntry> {
    if v == VECTOR_BREAKPOINT {
        Some(
            HandlerEntry {
                disposition: HandlerDisposition::Resume,
                ist_index: None,
                eoi_vector: None,
            },
        )
    } else if v == VECTOR_DOUBLE_FAULT {
        Some(
            HandlerEntry {
                disposition: HandlerDisposition::Halt,
                ist_index: Some(DOUBLE_FAULT_IST_INDEX),
                eoi_vector: None,
            },
        )
    } else if v == VECTOR_DEBUG || v == VECTOR_BOUND_RANGE_EXCEEDED || v == VECTOR_INVALID_TSS
        || v == VECTOR_STACK_SEGMENT_FAULT || v == VECTOR_GENERAL_PROTECTION_FAULT
        || v == VECTOR_PAGE_FAULT || v == VECTOR_ALIGNMENT_CHECK || v == VECTOR_VIRTUALIZATION
        || v == VECTOR_VMM_COMMUNICATION {
        Some(
            HandlerEntry {
                disposition: HandlerDisposition::Halt,
                ist_index: None,
                eoi_vector: None,
            },
        )
    } else if v == VECTOR_TIMER || v == VECTOR_KEYBOARD {
        Some(
            HandlerEntry {
                disposition: HandlerDisposition::Resume,
                ist_index: None,
                eoi_vector: Some(v),
            },
        )
    } else {
        None
    }
}

/// The interrupt vector table: 256 slots mapping vector numbers to
/// handler entries. Immutable once installed.
pub struct InterruptTable {
    entries: Vec<Option<HandlerEntry>>,
}

impl InterruptTable {
    /// The slot for vector `v`.
    pub closed spec fn entry(self, v: u8) -> Option<HandlerEntry> {
        self.entries@[v as int]
    }

    /// All 256 slots exist and hold exactly what the kernel installs.
    pub closed spec fn installed(self) -> bool {
        self.entries@.len() == 256 && forall|v: u8| self.entry(v) == installed_entry(v)
    }

    /// Looks up the slot for vector `v`.
    pub fn get(&self, v: u8) -> (e: Option<HandlerEntry>)
        requires
            self.installed(),
        ensures
            e == installed_entry(v),
    {
        self.entries[v as usize]
    }
}

/// Builds the interrupt vector table.
///
/// Exceptions whose continuation would be unsound get halting handlers;
/// the breakpoint returns to the next instruction; the double fault is
/// bound to the dedicated stack slot so that it still runs after a stack
/// overflow; the two hardware vectors carry their end-of-interrupt duty.
pub fn init_idt() -> (t: InterruptTable)
    ensures
        t.installed(),
{
    let mut entries: Vec<Option<HandlerEntry>> = Vec::new();
    let mut i: usize = 0;
    while i < 256
        invariant
            i <= 256,
            entries@.len() == i,
            forall|j: int| 0 <= j < i ==> entries@[j] is None,
        decreases 256 - i,
    {
        entries.push(None);
        i = i + 1;
    }
    entries[VECTOR_BREAKPOINT as usize] = Some(
        HandlerEntry {
            disposition: HandlerDisposition::Resume,
            ist_index: None,
            eoi_vector: None,
        },
    );
    entries[VECTOR_DOUBLE_FAULT as usize] = Some(
        HandlerEntry {
            disposition: HandlerDisposition::Halt,
            ist_index: Some(DOUBLE_FAULT_IST_INDEX),
            eoi_vector: None,
        },
    );
    let fatal = HandlerEntry {
        disposition: HandlerDisposition::Halt,
        ist_index: None,
        eoi_vector: None,
    };
    entries[VECTOR_DEBUG as usize] = Some(fatal);
    entries[VECTOR_BOUND_RANGE_EXCEEDED as usize] = Some(fatal);
    entries[VECTOR_INVALID_TSS as usize] = Some(fatal);
    entries[VECTOR_STACK_SEGMENT_FAULT as usize] = Some(fatal);
    entries[VECTOR_GENERAL_PROTECTION_FAULT as usize] = Some(fatal);
    entries[VECTOR_PAGE_FAULT as usize] = Some(fatal);
    entries[VECTOR_ALIGNMENT_CHECK as usize] = Some(fatal);
    entries[VECTOR_VIRTUALIZATION as usize] = Some(fatal);
    entries[VECTOR_VMM_COMMUNICATION as usize] = Some(fatal);
    entries[VECTOR_TIMER as usize] = Some(
        HandlerEntry {
            disposition: HandlerDisposition::Resume,
            ist_index: None,
            eoi_vector: Some(VECTOR_TIMER),
        },
    );
    entries[VECTOR_KEYBOARD as usize] = Some(
        HandlerEntry {
            disposition: HandlerDisposition::Resume,
            ist_index: None,
            eoi_vector: Some(VECTOR_KEYBOARD),
        },
    );
    let t = InterruptTable { entries };
    proof {
        assert forall|v: u8| t.entry(v) == installed_entry(v) by {
            assert(t.entries@[v as int] == installed_entry(v));
        }
    }
    t
}

/// The segments this kernel's descriptor table holds.
#[derive(Debug, Clone, Copy, PartialEq, Eq, Structural)]
pub enum SegmentDescriptor {
    /// The null descriptor every table starts with.
    Null,
    /// An executable ring-0 code segment.
    KernelCode,
    /// The task-state segment, holding the interrupt stack table.
    TaskState,
}

/// The two selectors the kernel loads after building its table.
#[derive(Debug, Clone, Copy, PartialEq, Eq, Structural)]
pub struct SegmentSelectors {
    /// Selects the kernel code segment; loaded into CS.
    pub code_selector: u16,
    /// Selects the task-state segment; loaded into the task register.
    pub tss_selector: u16,
}

/// The descriptor tables and the segment-register state the kernel
/// installs once at boot: a code segment, a task-state segment whose
/// interrupt stack table carries the dedicated double-fault stack, and
/// the selector values loaded into the CPU.
pub struct DescriptorTables {
    gdt: Vec<SegmentDescriptor>,
    interrupt_stack_table: Vec<u64>,
    selectors: SegmentSelectors,
    code_segment: u16,
    stack_segment: u16,
}

impl DescriptorTables {
    /// The stack-top address in interrupt-stack-table slot `i`; zero
    /// means the slot is unused.
    pub closed spec fn ist_entry(self, i: int) -> u64 {
        self.interrupt_stack_table@[i]
    }

    /// The descriptor the selector with index `i` refers to.
    pub closed spec fn descriptor(self, i: int) -> SegmentDescriptor {
        self.gdt@[i]
    }

    pub closed spec fn spec_selectors(self) -> SegmentSelectors {
        self.selectors
    }

    /// The value loaded into the code-segment register.
    pub closed spec fn spec_code_segment(self) -> u16 {
        self.code_segment
    }

    /// The value loaded into the stack-segment register.
    pub closed spec fn spec_stack_segment(self) -> u16 {
        self.stack_segment
    }

    /// The tables are consistent: the code selector names an executable
    /// ring-0 segment, the task selector names the task-state segment,
    /// CS holds the code selector, SS was cleared to the null selector,
    /// and the double-fault slot holds a nonzero stack top.
    pub closed spec fn wf(self) -> bool {
        &&& self.gdt@.len() == 3
        &&& self.interrupt_stack_table@.len() == 7
        &&& self.selectors.code_selector < 3
        &&& self.selectors.tss_selector < 3
        &&& self.gdt@[self.selectors.code_selector as int] == SegmentDescriptor::KernelCode
        &&& self.gdt@[self.selectors.tss_selector as int] == SegmentDescriptor::TaskState
        &&& self.code_segment == self.selectors.code_selector
        &&& self.stack_segment == 0
        &&& self.interrupt_stack_table@[DOUBLE_FAULT_IST_INDEX as int] != 0
    }

    /// The stack top recorded for the double-fault handler.
    pub open spec fn double_fault_stack_top(self) -> u64 {
        self.ist_entry(DOUBLE_FAULT_IST_INDEX as int)
    }

    /// Reads the stack top in interrupt-stack-table slot `i`.
    pub fn interrupt_stack_entry(&self, i: usize) -> (top: u64)
        requires
            self.wf(),
            i < 7,
        ensures
            top == self.ist_entry(i as int),
    {
        self.interrupt_stack_table[i]
    }

    /// The selectors the kernel loaded.
    pub fn selector_values(&self) -> (s: SegmentSelectors)
        ensures
            s == self.spec_selectors(),
    {
        self.selectors
    }

    /// The value the code-segment register was loaded with.
    pub fn code_segment_value(&self) -> (v: u16)
        ensures
            v == self.spec_code_segment(),
    {
        self.code_segment
    }

    /// The value the stack-segment register was loaded with.
    pub fn stack_segment_value(&self) -> (v: u16)
        ensures
            v == self.spec_stack_segment(),
    {
        self.stack_segment
    }
}

/// Builds the descriptor tables and records the segment-register loads.
///
/// `stack_start` is the lowest address of the memory reserved for the
/// double-fault stack; stacks grow downward, so the slot records the
/// region's end. The stack-segment register is cleared to the null
/// selector and the code-segment register re-loaded with the fresh code
/// selector, as the CPU requires after a table switch.
pub fn init_gdt(stack_start: u64) -> (t: DescriptorTables)
    requires
        0 < stack_start,
        stack_start + DOUBLE_FAULT_STACK_SIZE <= u64::MAX,
    ensures
        t.wf(),
        t.double_fault_stack_top() == stack_start + DOUBLE_FAULT_STACK_SIZE,
        t.spec_stack_segment() == 0,
{
    let mut interrupt_stack_table: Vec<u64> = Vec::new();
    let mut i: usize = 0;
    while i < 7
        invariant
            i <= 7,
            interrupt_stack_table@.len() == i,
            forall|j: int| 0 <= j < i ==> interrupt_stack_table@[j] == 0u64,
        decreases 7 - i,
    {
        interrupt_stack_table.push(0);
        i = i + 1;
    }
    interrupt_stack_table[DOUBLE_FAULT_IST_INDEX as usize] = stack_start
        + DOUBLE_FAULT_STACK_SIZE;
    let mut gdt: Vec<SegmentDescriptor> = Vec::new();
    gdt.push(SegmentDescriptor::Null);
    gdt.push(SegmentDescriptor::KernelCode);
    gdt.push(SegmentDescriptor::TaskState);
    let selectors = SegmentSelectors { code_selector: 1, tss_selector: 2 };
    DescriptorTables {
        gdt,
        interrupt_stack_table,
        selectors,
        code_segment: selectors.code_selector,
        stack_segment: 0,
    }
}

/// The pair of chained legacy interrupt controllers. Each of the eight
/// lines of a controller, once unmasked, injects the vector `offset +
/// line`; the kernel remaps both offsets clear of the CPU exceptions
/// before unmasking anything.
pub struct ChainedPics {
    master_offset: u8,
    slave_offset: u8,
    initialized: bool,
    acknowledged: Ghost<Seq<u8>>,
}

impl ChainedPics {
    pub closed spec fn spec_master_offset(self) -> u8 {
        self.master_offset
    }

    pub closed spec fn spec_slave_offset(self) -> u8 {
        self.slave_offset
    }

    /// The initialization handshake has completed; only then may lines be
    /// unmasked or acknowledged.
    pub closed spec fn is_initialized(self) -> bool {
        self.initialized
    }

    /// Every end-of-interrupt signalled so far, oldest first.
    pub closed spec fn acks(self) -> Seq<u8> {
        self.acknowledged@
    }

    /// The vector ranges of the two controllers stay clear of the CPU
    /// exceptions and of each other.
    pub open spec fn offsets_valid(master: u8, slave: u8) -> bool {
        &&& master >= 32
        &&& slave >= 32
        &&& master + 8 <= u8::MAX
        &&& slave + 8 <= u8::MAX
        &&& (master + 8 <= slave || slave + 8 <= master)
    }

    /// Lays out the controller pair with the given vector offsets; the
    /// initialization handshake has not run yet.
    pub fn new(master_offset: u8, slave_offset: u8) -> (p: ChainedPics)
        requires
            ChainedPics::offsets_valid(master_offset, slave_offset),
        ensures
            p.spec_master_offset() == master_offset,
            p.spec_slave_offset() == slave_offset,
            !p.is_initialized(),
            p.acks() == Seq::<u8>::empty(),
    {
        ChainedPics {
            master_offset,
            slave_offset,
            initialized: false,
            acknowledged: Ghost(Seq::empty()),
        }
    }

    /// Runs the initialization-command handshake against both
    /// controllers, remapping their vector ranges and wiring the cascade.
    /// Running it a second time is a programming error and is refused.
    pub fn initialize(&mut self) -> (r: Result<(), AlreadyInitializedError>)
        ensures
            final(self).spec_master_offset() == old(self).spec_master_offset(),
            final(self).spec_slave_offset() == old(self).spec_slave_offset(),
            final(self).acks() == old(self).acks(),
            final(self).is_initialized(),
            r is Ok <==> !old(self).is_initialized(),
    {
        if self.initialized {
            Err(AlreadyInitializedError)
        } else {
            self.initialized = true;
            Ok(())
        }
    }

    /// Whether the vector belongs to one of the two controllers.
    pub open spec fn spec_handles(self, vector: u8) -> bool {
        ||| self.spec_master_offset() <= vector < self.spec_master_offset() + 8
        ||| self.spec_slave_offset() <= vector < self.spec_slave_offset() + 8
    }

    pub fn handles_interrupt(&self, vector: u8) -> (b: bool)
        requires
            ChainedPics::offsets_valid(self.spec_master_offset(), self.spec_slave_offset()),
        ensures
            b == self.spec_handles(vector),
    {
        (self.master_offset <= vector && vector < self.master_offset + 8) || (self.slave_offset
            <= vector && vector < self.slave_offset + 8)
    }

    /// Records the end-of-interrupt signal for the vector's controller.
    /// It must be the last action of the handler for that vector, or
    /// interrupts of equal and lower priority stall on that controller.
    pub fn notify_end_of_interrupt(&mut self, vector: u8)
        requires
            old(self).is_initialized(),
            old(self).spec_handles(vector),
        ensures
            final(self).spec_master_offset() == old(self).spec_master_offset(),
            final(self).spec_slave_offset() == old(self).spec_slave_offset(),
            final(self).is_initialized(),
            final(self).acks() == old(self).acks().push(vector),
    {
        self.acknowledged = Ghost(self.acknowledged@.push(vector));
    }
}

/// Raised when a one-time initialization is attempted a second time.
#[derive(Debug, Clone, Copy, PartialEq, Eq, Structural)]
pub struct AlreadyInitializedError;

/// Diagnostic output a handler sends toward the logger, as plain values:
/// the text sink renders it.
#[derive(Debug, Clone, PartialEq, Eq)]
pub enum HandlerReport {
    /// Dump of an exception: its vector, the captured frame, and — where
    /// the CPU provides them — the error code and the accessed address.
    Exception { vector: u8, frame: InterruptFrame, error_code: Option<u64>, accessed_address: Option<u64> },
    /// A key the keyboard decoder resolved.
    Key(KeyOutput),
    /// A recoverable scancode decode failure.
    KeyboardError(DecodeError),
}

/// What one handler invocation decided.
#[derive(Debug, Clone, PartialEq, Eq)]
pub struct HandlerOutcome {
    /// Whether the processor halts or resumes the interrupted code.
    pub disposition: HandlerDisposition,
    /// The vector acknowledged to the controllers as the last action, or
    /// `None` where no acknowledgment is owed.
    pub eoi: Option<u8>,
    /// What to log.
    pub report: Option<HandlerReport>,
}

/// Everything the interrupt subsystem installs at boot, plus the state
/// its handlers mutate afterwards.
pub struct InterruptContext {
    tables: DescriptorTables,
    idt: InterruptTable,
    pics: ChainedPics,
    keyboard: KeyboardDecoder,
    timer_ticks: u64,
}

/// The context after one timer tick: the tick counter advanced by one
/// and the timer vector acknowledged as the last action; nothing else.
pub closed spec fn spec_after_tick(c: InterruptContext) -> InterruptContext {
    InterruptContext {
        tables: c.tables,
        idt: c.idt,
        pics: ChainedPics {
            master_offset: c.pics.master_offset,
            slave_offset: c.pics.slave_offset,
            initialized: c.pics.initialized,
            acknowledged: Ghost(c.pics.acknowledged@.push(VECTOR_TIMER)),
        },
        keyboard: c.keyboard,
        timer_ticks: (c.timer_ticks + 1) as u64,
    }
}

impl InterruptContext {
    /// The descriptor tables as installed.
    pub closed spec fn spec_tables(self) -> DescriptorTables {
        self.tables
    }

    /// The vector table slot for `v`.
    pub closed spec fn idt_entry(self, v: u8) -> Option<HandlerEntry> {
        self.idt.entry(v)
    }

    /// Timer ticks counted since boot.
    pub closed spec fn ticks(self) -> u64 {
        self.timer_ticks
    }

    /// Every end-of-interrupt signalled so far, oldest first.
    pub closed spec fn acks(self) -> Seq<u8> {
        self.pics.acks()
    }

    /// The stack top reserved for the double-fault handler.
    pub open spec fn double_fault_stack_top(self) -> u64 {
        self.spec_tables().double_fault_stack_top()
    }

    /// The subsystem is installed: descriptor tables consistent, the
    /// vector table holds exactly the kernel's registrations, and the
    /// controllers are remapped to the standard offsets and initialized.
    pub closed spec fn wf(self) -> bool {
        &&& self.tables.wf()
        &&& self.idt.installed()
        &&& self.pics.spec_master_offset() == PIC_1_OFFSET
        &&& self.pics.spec_slave_offset() == PIC_2_OFFSET
        &&& self.pics.is_initialized()
    }

    /// Timer ticks counted since boot.
    pub fn timer_ticks(&self) -> (t: u64)
        ensures
            t == self.ticks(),
    {
        self.timer_ticks
    }

    /// The vector table slot for `v`, as installed.
    pub fn idt_slot(&self, v: u8) -> (e: Option<HandlerEntry>)
        requires
            self.wf(),
        ensures
            e == installed_entry(v),
    {
        self.idt.get(v)
    }

    /// Counts the tick and acknowledges the timer vector as the last
    /// action, re-arming the controller for the next tick.
    pub fn timer_interrupt_handler(&mut self) -> (out: HandlerOutcome)
        requires
            old(self).wf(),
            old(self).ticks() < u64::MAX,
        ensures
            final(self).wf(),
            *final(self) == spec_after_tick(*old(self)),
            out.disposition == HandlerDisposition::Resume,
            out.eoi == Some(VECTOR_TIMER),
            out.report is None,
    {
        self.timer_ticks = self.timer_ticks + 1;
        self.pics.notify_end_of_interrupt(VECTOR_TIMER);
        HandlerOutcome {
            disposition: HandlerDisposition::Resume,
            eoi: Some(VECTOR_TIMER),
            report: None,
        }
    }

    /// Feeds the scancode byte read from the keyboard port through the
    /// decoder, reports what it resolved, and acknowledges the keyboard
    /// vector as the last action.
    pub fn keyboard_interrupt_handler(&mut self, scancode: u8) -> (out: HandlerOutcome)
        requires
            old(self).wf(),
        ensures
            final(self).wf(),
            final(self).ticks() == old(self).ticks(),
            final(self).spec_tables() == old(self).spec_tables(),
            final(self).acks() == old(self).acks().push(VECTOR_KEYBOARD),
            out.disposition == HandlerDisposition::Resume,
            out.eoi == Some(VECTOR_KEYBOARD),
            match out.report {
                None => true,
                Some(HandlerReport::Key(k)) => exists|kp: crate::keyboard::KeyPress|
                    k == crate::keyboard::spec_resolve(kp),
                Some(HandlerReport::KeyboardError(_)) => true,
                Some(_) => false,
            },
    {
        let decoded = self.keyboard.process_scancode(scancode);
        let report = match decoded {
            ScancodeOutcome::NoEvent => None,
            ScancodeOutcome::Key(k) => Some(HandlerReport::Key(k)),
            ScancodeOutcome::DecodeFailed(e) => Some(HandlerReport::KeyboardError(e)),
        };
        self.pics.notify_end_of_interrupt(VECTOR_KEYBOARD);
        HandlerOutcome {
            disposition: HandlerDisposition::Resume,
            eoi: Some(VECTOR_KEYBOARD),
            report,
        }
    }

    /// Dispatches one vector as the CPU would after consulting the
    /// installed table. Hardware vectors hand their payload in (the
    /// keyboard's port byte); exceptions hand in the captured frame and
    /// whatever error data the CPU pushed. An unpopulated vector yields
    /// no outcome and changes nothing.
    pub fn dispatch_interrupt(
        &mut self,
        vector: u8,
        frame: &InterruptFrame,
        error_code: Option<u64>,
        accessed_address: Option<u64>,
        scancode: Option<u8>,
    ) -> (r: Option<HandlerOutcome>)
        requires
            old(self).wf(),
            vector == VECTOR_TIMER ==> old(self).ticks() < u64::MAX,
            vector == VECTOR_KEYBOARD ==> scancode is Some,
        ensures
            final(self).wf(),
            r is Some <==> installed_entry(vector) is Some,
            r matches Some(out) ==> {
                &&& out.disposition == installed_entry(vector)->Some_0.disposition
                &&& out.eoi == installed_entry(vector)->Some_0.eoi_vector
            },
            vector == VECTOR_TIMER ==> *final(self) == spec_after_tick(*old(self)),
            vector != VECTOR_TIMER ==> final(self).ticks() == old(self).ticks(),
            vector == VECTOR_KEYBOARD ==> final(self).acks() == old(self).acks().push(
                VECTOR_KEYBOARD,
            ),
            vector != VECTOR_TIMER && vector != VECTOR_KEYBOARD ==> *final(self) == *old(self),
    {
        if vector == VECTOR_TIMER {
            Some(self.timer_interrupt_handler())
        } else if vector == VECTOR_KEYBOARD {
            if let Some(byte) = scancode {
                Some(self.keyboard_interrupt_handler(byte))
            } else {
                proof {
                    assert(false);
                }
                None
            }
        } else if vector == VECTOR_BREAKPOINT {
            Some(breakpoint_handler(frame))
        } else if vector == VECTOR_DOUBLE_FAULT {
            let code: u64 = match error_code {
                Some(c) => c,
                None => 0,
            };
            Some(double_fault_handler(frame, code))
        } else if vector == VECTOR_PAGE_FAULT {
            let code: u64 = match error_code {
                Some(c) => c,
                None => 0,
            };
            let addr: u64 = match accessed_address {
                Some(a) => a,
                None => 0,
            };
            Some(page_fault_handler(frame, code, addr))
        } else if vector == VECTOR_DEBUG || vector == VECTOR_BOUND_RANGE_EXCEEDED || vector
            == VECTOR_INVALID_TSS || vector == VECTOR_STACK_SEGMENT_FAULT || vector
            == VECTOR_GENERAL_PROTECTION_FAULT || vector == VECTOR_ALIGNMENT_CHECK || vector
            == VECTOR_VIRTUALIZATION || vector == VECTOR_VMM_COMMUNICATION {
            Some(fatal_exception_handler(vector, frame, error_code, accessed_address))
        } else {
            None
        }
    }
}

/// Installs the interrupt subsystem: descriptor tables first — the
/// vector table's double-fault slot refers into them — then the
/// vector table, then the controller handshake, and the keyboard
/// decoder before any keyboard interrupt can be taken.
///
/// `double_fault_stack_start` is the lowest address of the memory
/// reserved for the emergency stack. One-time initialization is
/// enforced by construction: the context exists exactly once.
pub fn init(double_fault_stack_start: u64) -> (ctx: InterruptContext)
    requires
        0 < double_fault_stack_start,
        double_fault_stack_start + DOUBLE_FAULT_STACK_SIZE <= u64::MAX,
    ensures
        ctx.wf(),
        ctx.ticks() == 0,
        ctx.acks() == Seq::<u8>::empty(),
        ctx.double_fault_stack_top() == double_fault_stack_start + DOUBLE_FAULT_STACK_SIZE,
{
    let tables = init_gdt(double_fault_stack_start);
    let idt = init_idt();
    let mut pics = ChainedPics::new(PIC_1_OFFSET, PIC_2_OFFSET);
    let handshake = pics.initialize();
    assert(handshake is Ok);
    let keyboard = KeyboardDecoder::new();
    InterruptContext { tables, idt, pics, keyboard, timer_ticks: 0 }
}

/// Logs the captured frame and returns control to the instruction after
/// the trap: the breakpoint is the one exception meant for resuming, and
/// it touches no kernel state.
pub fn breakpoint_handler(frame: &InterruptFrame) -> (out: HandlerOutcome)
    ensures
        out.disposition == HandlerDisposition::Resume,
        out.eoi is None,
        out.report == Some(
            HandlerReport::Exception {
                vector: VECTOR_BREAKPOINT,
                frame: *frame,
                error_code: None,
                accessed_address: None,
            },
        ),
{
    HandlerOutcome {
        disposition: HandlerDisposition::Resume,
        eoi: None,
        report: Some(
            HandlerReport::Exception {
                vector: VECTOR_BREAKPOINT,
                frame: *frame,
                error_code: None,
                accessed_address: None,
            },
        ),
    }
}

/// A fault arrived while a fault was being delivered — often a kernel
/// stack overflow. Running on the dedicated stack, it dumps the frame
/// and halts; recovery is impossible, but the diagnosis survives.
pub fn double_fault_handler(frame: &InterruptFrame, error_code: u64) -> (out: HandlerOutcome)
    ensures
        out.disposition == HandlerDisposition::Halt,
        out.eoi is None,
        out.report == Some(
            HandlerReport::Exception {
                vector: VECTOR_DOUBLE_FAULT,
                frame: *frame,
                error_code: Some(error_code),
                accessed_address: None,
            },
        ),
{
    HandlerOutcome {
        disposition: HandlerDisposition::Halt,
        eoi: None,
        report: Some(
            HandlerReport::Exception {
                vector: VECTOR_DOUBLE_FAULT,
                frame: *frame,
                error_code: Some(error_code),
                accessed_address: None,
            },
        ),
    }
}

/// Dumps the faulting address read from the CPU's fault-address register
/// together with the access-type error code, and halts.
pub fn page_fault_handler(frame: &InterruptFrame, error_code: u64, accessed_address: u64) -> (out:
    HandlerOutcome)
    ensures
        out.disposition == HandlerDisposition::Halt,
        out.eoi is None,
        out.report == Some(
            HandlerReport::Exception {
                vector: VECTOR_PAGE_FAULT,
                frame: *frame,
                error_code: Some(error_code),
                accessed_address: Some(accessed_address),
            },
        ),
{
    HandlerOutcome {
        disposition: HandlerDisposition::Halt,
        eoi: None,
        report: Some(
            HandlerReport::Exception {
                vector: VECTOR_PAGE_FAULT,
                frame: *frame,
                error_code: Some(error_code),
                accessed_address: Some(accessed_address),
            },
        ),
    }
}

/// Any other installed CPU exception is fatal: the protection state may
/// already be inconsistent, so the handler dumps what the CPU captured
/// and halts.
pub fn fatal_exception_handler(
    vector: u8,
    frame: &InterruptFrame,
    error_code: Option<u64>,
    accessed_address: Option<u64>,
) -> (out: HandlerOutcome)
    ensures
        out.disposition == HandlerDisposition::Halt,
        out.eoi is None,
        out.report == Some(
            HandlerReport::Exception { vector, frame: *frame, error_code, accessed_address },
        ),
{
    HandlerOutcome {
        disposition: HandlerDisposition::Halt,
        eoi: None,
        report: Some(
            HandlerReport::Exception { vector, frame: *frame, error_code, accessed_address },
        ),
    }
}

/// Exception policy: every populated exception vector other than the
/// breakpoint and the double fault is fatal — its handler halts the
/// processor, and the interrupted code is never resumed.
pub proof fn lemma_fatal_exceptions_halt()
    ensures
        forall|v: u8|
            v < 32 && v != VECTOR_BREAKPOINT && v != VECTOR_DOUBLE_FAULT && (
            #[trigger] installed_entry(v)) is Some ==> installed_entry(
                v,
            )->Some_0.disposition == HandlerDisposition::Halt,
{
}

/// The breakpoint is non-fatal: its entry resumes the interrupted code,
/// forces no stack switch and owes no acknowledgment — and its handler
/// takes the frame read-only, so no kernel state can change.
pub proof fn lemma_breakpoint_resumes()
    ensures
        installed_entry(VECTOR_BREAKPOINT) == Some(
            HandlerEntry {
                disposition: HandlerDisposition::Resume,
                ist_index: None,
                eoi_vector: None,
            },
        ),
{
}

/// A kernel stack overflow escalates to a double fault, and the double
/// fault's slot forces the switch to the dedicated emergency stack: in
/// every installed context that slot holds a nonzero stack top, so the
/// fault is diagnosed instead of silently resetting the machine.
pub proof fn lemma_double_fault_emergency_stack(c: InterruptContext)
    requires
        c.wf(),
    ensures
        c.idt_entry(VECTOR_DOUBLE_FAULT) == installed_entry(VECTOR_DOUBLE_FAULT),
        installed_entry(VECTOR_DOUBLE_FAULT)->Some_0.ist_index == Some(DOUBLE_FAULT_IST_INDEX),
        installed_entry(VECTOR_DOUBLE_FAULT)->Some_0.disposition == HandlerDisposition::Halt,
        c.double_fault_stack_top() != 0,
{
}

/// Acknowledgment duty: every populated hardware vector's entry demands
/// end-of-interrupt for exactly the vector it is installed at — the
/// registration table makes a wrong or missing acknowledgment
/// structurally impossible.
pub proof fn lemma_eoi_matches_vector()
    ensures
        forall|v: u8|
            v >= 32 && (#[trigger] installed_entry(v)) is Some ==> installed_entry(
                v,
            )->Some_0.eoi_vector == Some(v),
{
}

/// Timer ticks accumulate: each tick increments the counter exactly once
/// and ends by acknowledging the timer vector, and the state stays well
/// formed — so a second tick is still delivered and counted.
pub proof fn lemma_timer_ticks_accumulate(c: InterruptContext)
    requires
        c.wf(),
        c.ticks() + 2 <= u64::MAX,
    ensures
        spec_after_tick(c).wf(),
        spec_after_tick(c).ticks() == c.ticks() + 1,
        spec_after_tick(c).acks() == c.acks().push(VECTOR_TIMER),
        spec_after_tick(spec_after_tick(c)).ticks() == c.ticks() + 2,
        spec_after_tick(spec_after_tick(c)).acks() == c.acks().push(VECTOR_TIMER).push(
            VECTOR_TIMER,
        ),
{
}

} // verus!
