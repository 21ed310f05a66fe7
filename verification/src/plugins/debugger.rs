//! The decisions of the interactive debugger: breakpoints, watched memory,
//! skipped code, the stack of calls, time travel and the commands typed in.
//! Printing, reading commands and running user conditions is left to the
//! embedder, which hands the results back.
use vstd::prelude::*;

use crate::commands::{Address, Command};
use crate::instructions::{Instruction, InstructionOp};
use crate::interrupts::Interrupt;
use crate::memory::{Memory, MemoryView};
use crate::plugins::debug_symbols::{has_name, DebugSymbols};
use crate::plugins::function_watcher::{find_function_name, symbols_named_from};
use crate::plugins::timetravel::{can_record, History};
use crate::plugins::{is_combination, PluginWishes};
use crate::registers::{RegisterIndex, Registers};

verus! {

/// When a breakpoint applies.
#[derive(Debug, Clone, Copy, PartialEq, Eq, Structural)]
pub enum BreakpointCondition {
    /// Whenever it is reached.
    Always,
    /// When the embedder's condition with this index holds.
    Custom(usize),
    /// Reaching it is a fatal error.
    Panic,
}

/// What a breakpoint that applies does.
#[derive(Debug, Clone, Copy, PartialEq, Eq, Structural)]
pub enum BreakpointAction {
    /// Stop and ask for a command.
    Stop,
    /// Show the register and go on.
    EmitRegister(RegisterIndex),
}

/// A place where execution stops.
#[derive(Debug, Clone, Copy, PartialEq, Eq, Structural)]
pub struct Breakpoint {
    pub ip: u32,
    pub condition: BreakpointCondition,
    pub action: BreakpointAction,
    /// The breakpoint is removed once it was hit.
    pub fragile: bool,
}

/// A byte of memory whose reads and writes are reported.
#[derive(Debug, Clone, Copy, PartialEq, Eq, Structural)]
pub struct MemoryAddressWatcher {
    pub address: u32,
    pub last_seen_value: u8,
    pub print_on_read: bool,
    pub step_on_read: bool,
    pub step_on_write: bool,
}

/// What happens when an interrupt occurs.
#[derive(Debug, Clone, Copy, PartialEq, Eq, Structural)]
pub enum InterruptAction {
    /// Pause execution.
    Pause,
    /// Show the interrupt's name.
    EmitName,
}

/// A reaction to one interrupt, or to all when `interrupt` is none.
#[derive(Debug, Clone, Copy, PartialEq, Eq, Structural)]
pub struct InterruptHandler {
    pub interrupt: Option<Interrupt>,
    pub action: InterruptAction,
}

/// What the debugger reports about an executed instruction.
#[derive(Debug, Clone, Copy, PartialEq, Eq, Structural)]
pub enum WatchMessage {
    /// A watched byte was read.
    Read { address: u32, value: u8 },
    /// A watched byte was written.
    Change { address: u32, old: u8, new: u8 },
}

/// What to show after an instruction ran.
#[derive(Debug)]
pub struct AfterExecution {
    pub messages: Vec<WatchMessage>,
    /// Show the instruction.
    pub print_instruction: bool,
    /// Show the registers that changed and `memory_changes`.
    pub print_changes: bool,
    /// The bytes written, with their old and new values.
    pub memory_changes: Vec<(u32, u8, u8)>,
}

/// What to do before an instruction runs.
#[derive(Debug, Clone, Copy, PartialEq, Eq, Structural)]
pub struct BeforeExecution {
    /// Show the instruction.
    pub print_instruction: bool,
    /// Stop and ask for a command.
    pub ask_for_command: bool,
}

/// What a command has to show.
#[derive(Debug, PartialEq, Eq)]
pub enum CommandOutput {
    Nothing,
    Registers,
    StackFrame,
    EmptyStackFrame,
    MemoryValue { address: u32, value: u32 },
    Help,
    Echo(String),
}

/// What the breakpoints at an address decide.
#[derive(Debug)]
pub struct BreakpointOutcome {
    /// One of them stops execution.
    pub stop: bool,
    /// One of them is a fatal error: it makes reaching the address fatal,
    /// or it asks for a condition of the embedder that does not exist.
    pub fatal: bool,
    /// The registers to show, in order.
    pub emitted: Vec<RegisterIndex>,
}

/// What the breakpoints of `breakpoints` from index `k` on decide at `ip`,
/// where `custom[i]` is the result of the embedder's condition `i`: they are
/// taken in order, and the first that stops or is fatal ends the walk.
/// Result: whether one stops, whether one is fatal, and the registers shown
/// before.
pub open spec fn breakpoint_outcome(
    breakpoints: Seq<Breakpoint>,
    ip: u32,
    custom: Seq<bool>,
    k: int,
) -> (bool, bool, Seq<RegisterIndex>)
    decreases breakpoints.len() - k,
{
    if k < 0 || k >= breakpoints.len() {
        (false, false, Seq::empty())
    } else if breakpoints[k].ip != ip {
        breakpoint_outcome(breakpoints, ip, custom, k + 1)
    } else {
        let rest = breakpoint_outcome(breakpoints, ip, custom, k + 1);
        match breakpoints[k].condition {
            BreakpointCondition::Panic => (false, true, Seq::empty()),
            BreakpointCondition::Custom(i) if i >= custom.len() => (false, true, Seq::empty()),
            condition => {
                let met = match condition {
                    BreakpointCondition::Custom(i) => custom[i as int],
                    _ => true,
                };
                if !met {
                    rest
                } else {
                    match breakpoints[k].action {
                        BreakpointAction::Stop => (true, false, Seq::empty()),
                        BreakpointAction::EmitRegister(r) => (rest.0, rest.1, seq![r] + rest.2),
                    }
                }
            },
        }
    }
}

/// Whether a breakpoint stays once execution stopped at `ip`: fragile
/// breakpoints at `ip` go.
pub open spec fn survives_hit(ip: u32) -> spec_fn(Breakpoint) -> bool {
    |b: Breakpoint| b.ip != ip || !b.fragile
}

/// Whether one of `sections` contains `ip`.
pub open spec fn is_in_sections(sections: Seq<(u32, u32)>, ip: u32) -> bool {
    exists|k: int| 0 <= k < sections.len() && #[trigger] sections[k].0 <= ip && ip < sections[k].1
}

/// The last entry of `stack` that is not `ip`.
pub open spec fn last_other(stack: Seq<u32>, ip: u32) -> Option<u32>
    decreases stack.len(),
{
    if stack.len() == 0 {
        None
    } else if stack.last() != ip {
        Some(stack.last())
    } else {
        last_other(stack.drop_last(), ip)
    }
}

/// The index of the first watcher of `address`.
pub open spec fn watcher_of(watchers: Seq<MemoryAddressWatcher>, address: u32) -> Option<int> {
    if exists|k: int| 0 <= k < watchers.len() && #[trigger] watchers[k].address == address {
        Some(
            choose|k: int|
                0 <= k < watchers.len() && #[trigger] watchers[k].address == address && forall|j: int|
                    0 <= j < k ==> #[trigger] watchers[j].address != address,
        )
    } else {
        None
    }
}

/// The messages about the reads `reads` of watched bytes: one for each read
/// whose first watcher asks for it, in the order of the reads.
pub open spec fn read_messages(watchers: Seq<MemoryAddressWatcher>, reads: Seq<(u32, u8)>) -> Seq<
    WatchMessage,
>
    decreases reads.len(),
{
    if reads.len() == 0 {
        Seq::empty()
    } else {
        let (address, value) = reads.last();
        let earlier = read_messages(watchers, reads.drop_last());
        match watcher_of(watchers, address) {
            Some(w) => if watchers[w].print_on_read {
                earlier.push(WatchMessage::Read { address, value })
            } else {
                earlier
            },
            None => earlier,
        }
    }
}

/// The messages about the writes `writes`: one for each write of a watched
/// byte, with its old and new value, in the order of the writes.
pub open spec fn change_messages(
    watchers: Seq<MemoryAddressWatcher>,
    writes: Seq<(u32, u8, u8)>,
) -> Seq<WatchMessage>
    decreases writes.len(),
{
    if writes.len() == 0 {
        Seq::empty()
    } else {
        let (address, old, new) = writes.last();
        let earlier = change_messages(watchers, writes.drop_last());
        if watcher_of(watchers, address) is Some {
            earlier.push(WatchMessage::Change { address, old, new })
        } else {
            earlier
        }
    }
}

/// The watchers after the writes `writes`: the first watcher of each
/// written byte has seen the value written last.
pub open spec fn seen_after(
    watchers: Seq<MemoryAddressWatcher>,
    writes: Seq<(u32, u8, u8)>,
) -> Seq<MemoryAddressWatcher>
    decreases writes.len(),
{
    if writes.len() == 0 {
        watchers
    } else {
        let (address, _old, new) = writes.last();
        let earlier = seen_after(watchers, writes.drop_last());
        match watcher_of(watchers, address) {
            Some(w) => earlier.update(w, MemoryAddressWatcher { last_seen_value: new, ..earlier[w] }),
            None => earlier,
        }
    }
}

/// Whether the first watcher of `address` makes a read of it step.
pub open spec fn steps_on_read(watchers: Seq<MemoryAddressWatcher>, address: u32) -> bool {
    match watcher_of(watchers, address) {
        Some(w) => watchers[w].step_on_read,
        None => false,
    }
}

/// Whether the first watcher of `address` makes a write of it step.
pub open spec fn steps_on_write(watchers: Seq<MemoryAddressWatcher>, address: u32) -> bool {
    match watcher_of(watchers, address) {
        Some(w) => watchers[w].step_on_write,
        None => false,
    }
}

/// The number of handlers among the first `n` of `handlers` that react to
/// `interrupt` with `action`.
pub open spec fn reactions(
    handlers: Seq<InterruptHandler>,
    interrupt: Interrupt,
    action: InterruptAction,
    n: int,
) -> nat
    decreases n,
{
    if n <= 0 || n > handlers.len() {
        0
    } else {
        reactions(handlers, interrupt, action, n - 1) + if handles(handlers[n - 1], interrupt)
            && handlers[n - 1].action == action {
            1nat
        } else {
            0nat
        }
    }
}

/// Whether `handler` reacts to `interrupt`.
pub open spec fn handles(handler: InterruptHandler, interrupt: Interrupt) -> bool {
    match handler.interrupt {
        Some(i) => i == interrupt,
        None => true,
    }
}

/// The stack of calls after the instruction `instruction` at `ip`
/// executed: the entry of `ip` is dropped from its top, and a branch that
/// links pushes the address it returns to.
pub open spec fn stack_after(stack: Seq<u32>, instruction: Instruction, ip: u32) -> Seq<u32> {
    let popped = if stack.len() > 0 && stack.last() == ip {
        stack.drop_last()
    } else {
        stack
    };
    match instruction.op {
        InstructionOp::Branch { store_return_address_in_link_register, instruction_size, .. } => {
            if store_return_address_in_link_register {
                popped.push((ip + instruction_size) as u32)
            } else {
                popped
            }
        },
        _ => popped,
    }
}

/// Whether the stack of calls can be followed through `instruction` at
/// `ip`: a return address fits in 32 bits, and the instruction does not
/// store the instruction pointer among several registers, which is not
/// supported.
pub open spec fn can_follow_stack(instruction: Instruction, ip: u32) -> bool {
    match instruction.op {
        InstructionOp::Branch { store_return_address_in_link_register, instruction_size, .. } => {
            store_return_address_in_link_register ==> ip + instruction_size <= u32::MAX
        },
        InstructionOp::StoreOrLoadRegisters { is_load, register_list, .. } => is_load
            || !register_list.has(15),
        _ => true,
    }
}

/// The interactive debugger.
pub struct Debugger {
    pub breakpoints: Vec<Breakpoint>,
    pub interrupt_handler: Vec<InterruptHandler>,
    pub memory_address_watchers: Vec<MemoryAddressWatcher>,
    pub skipped_sections: Vec<(u32, u32)>,
    pub is_silent: bool,
    pub is_stepping: bool,
    pub watch_stack: bool,
    pub stackframe: Vec<u32>,
    pub debug_symbols: Vec<DebugSymbols>,
    pub registers: Registers,
    pub history: History,
}

impl Debugger {
    /// A debugger that knows the functions of `bios_symbols`, keeps fewer
    /// than `history_capacity` executed instructions, and prints every
    /// instruction unless `is_silent`.
    pub fn new(is_silent: bool, history_capacity: usize, bios_symbols: DebugSymbols) -> (r: Debugger)
        ensures
            r.history.wf(),
            r.history.capacity == history_capacity,
            r.history.entries@.len() == 0,
            r.breakpoints@.len() == 0,
            r.interrupt_handler@.len() == 0,
            r.memory_address_watchers@.len() == 0,
            r.skipped_sections@.len() == 0,
            r.is_silent == is_silent,
            !r.is_stepping,
            !r.watch_stack,
            r.stackframe@.len() == 0,
            r.debug_symbols@ == seq![bios_symbols],
    {
        let mut debug_symbols: Vec<DebugSymbols> = Vec::new();
        debug_symbols.push(bios_symbols);
        Debugger {
            history: History::new(history_capacity),
            breakpoints: Vec::new(),
            memory_address_watchers: Vec::new(),
            is_stepping: false,
            is_silent,
            watch_stack: false,
            stackframe: Vec::new(),
            debug_symbols,
            registers: Registers::new(),
            skipped_sections: Vec::new(),
            interrupt_handler: Vec::new(),
        }
    }

    /// The name of the first named function that covers `address`.
    pub fn find_function_name_for_address(&self, address: u32) -> (r: Option<&str>)
        ensures
            match r {
                Some(n) => symbols_named_from(self.debug_symbols@, address, 0) == Some(n@),
                None => symbols_named_from(self.debug_symbols@, address, 0) is None,
            },
    {
        find_function_name(&self.debug_symbols, address)
    }

    /// Follows the stack of calls from now on.
    pub fn with_watch_stack(&mut self) -> (r: &mut Self)
        ensures
            *r == (Debugger { watch_stack: true, ..*old(self) }),
            *final(self) == *final(r),
    {
        self.watch_stack = true;
        self
    }

    /// Stops whenever the instruction at `ip` is about to run.
    pub fn with_breakpoint(&mut self, ip: u32) -> (r: &mut Self)
        ensures
            r.breakpoints@ == old(self).breakpoints@.push(
                Breakpoint {
                    ip,
                    condition: BreakpointCondition::Always,
                    action: BreakpointAction::Stop,
                    fragile: false,
                },
            ),
            *r == (Debugger { breakpoints: r.breakpoints, ..*old(self) }),
            *final(self) == *final(r),
    {
        self.breakpoints.push(
            Breakpoint {
                ip,
                condition: BreakpointCondition::Always,
                action: BreakpointAction::Stop,
                fragile: false,
            },
        );
        self
    }

    /// Makes reaching `ip` a fatal error.
    pub fn panic_on(&mut self, ip: u32) -> (r: &mut Self)
        ensures
            r.breakpoints@ == old(self).breakpoints@.push(
                Breakpoint {
                    ip,
                    condition: BreakpointCondition::Panic,
                    action: BreakpointAction::Stop,
                    fragile: false,
                },
            ),
            *r == (Debugger { breakpoints: r.breakpoints, ..*old(self) }),
            *final(self) == *final(r),
    {
        self.breakpoints.push(
            Breakpoint {
                ip,
                condition: BreakpointCondition::Panic,
                action: BreakpointAction::Stop,
                fragile: false,
            },
        );
        self
    }

    /// Stops at `ip` when the embedder's condition number `condition`
    /// holds.
    pub fn with_breakpoint_conditionally(&mut self, ip: u32, condition: usize) -> (r: &mut Self)
        ensures
            r.breakpoints@ == old(self).breakpoints@.push(
                Breakpoint {
                    ip,
                    condition: BreakpointCondition::Custom(condition),
                    action: BreakpointAction::Stop,
                    fragile: false,
                },
            ),
            *r == (Debugger { breakpoints: r.breakpoints, ..*old(self) }),
            *final(self) == *final(r),
    {
        self.breakpoints.push(
            Breakpoint {
                ip,
                condition: BreakpointCondition::Custom(condition),
                action: BreakpointAction::Stop,
                fragile: false,
            },
        );
        self
    }

    /// Shows `register` whenever the instruction at `address` is about to
    /// run.
    pub fn emit_register_on(&mut self, register: RegisterIndex, address: u32) -> (r: &mut Self)
        ensures
            r.breakpoints@ == old(self).breakpoints@.push(
                Breakpoint {
                    ip: address,
                    condition: BreakpointCondition::Always,
                    action: BreakpointAction::EmitRegister(register),
                    fragile: false,
                },
            ),
            *r == (Debugger { breakpoints: r.breakpoints, ..*old(self) }),
            *final(self) == *final(r),
    {
        self.breakpoints.push(
            Breakpoint {
                ip: address,
                condition: BreakpointCondition::Always,
                action: BreakpointAction::EmitRegister(register),
                fragile: false,
            },
        );
        self
    }

    /// Watches the `length_in_bytes` bytes from `address` on.
    pub fn with_watch_memory_address(
        &mut self,
        address: u32,
        length_in_bytes: u32,
        step_on_write: bool,
        step_on_read: bool,
        print_on_read: bool,
    ) -> (r: &mut Self)
        requires
            address + length_in_bytes <= u32::MAX + 1,
        ensures
            r.memory_address_watchers@ == old(self).memory_address_watchers@ + Seq::new(
                length_in_bytes as nat,
                |i: int|
                    MemoryAddressWatcher {
                        address: (address + i) as u32,
                        last_seen_value: 0,
                        step_on_read,
                        step_on_write,
                        print_on_read,
                    },
            ),
            *r == (Debugger {
                memory_address_watchers: r.memory_address_watchers,
                ..*old(self)
            }),
            *final(self) == *final(r),
    {
        let ghost start = self.memory_address_watchers@;
        let mut i: u32 = 0;
        while i < length_in_bytes
            invariant
                i <= length_in_bytes,
                address + length_in_bytes <= u32::MAX + 1,
                self.memory_address_watchers@ == start + Seq::new(
                    i as nat,
                    |k: int|
                        MemoryAddressWatcher {
                            address: (address + k) as u32,
                            last_seen_value: 0,
                            step_on_read,
                            step_on_write,
                            print_on_read,
                        },
                ),
                start == old(self).memory_address_watchers@,
                *self == (Debugger { memory_address_watchers: self.memory_address_watchers, ..*old(self) }),
            decreases length_in_bytes - i,
        {
            self.memory_address_watchers.push(
                MemoryAddressWatcher {
                    address: address + i,
                    last_seen_value: 0,
                    step_on_read,
                    step_on_write,
                    print_on_read,
                },
            );
            i = i + 1;
            assert(self.memory_address_watchers@ =~= start + Seq::new(
                i as nat,
                |k: int|
                    MemoryAddressWatcher {
                        address: (address + k) as u32,
                        last_seen_value: 0,
                        step_on_read,
                        step_on_write,
                        print_on_read,
                    },
            ));
        }
        self
    }

    /// Skips the addresses from `start` up to `end`: instructions there are
    /// not shown.
    pub fn skip_section(&mut self, start: u32, end: u32) -> (r: &mut Self)
        ensures
            r.skipped_sections@ == old(self).skipped_sections@.push((start, end)),
            *r == (Debugger { skipped_sections: r.skipped_sections, ..*old(self) }),
            *final(self) == *final(r),
    {
        self.skipped_sections.push((start, end));
        self
    }

    /// Skips the function named `name` of the first symbol table that has
    /// one; the function must exist.
    pub fn skip_function(&mut self, name: &str) -> (r: &mut Self)
        requires
            exists|i: int, k: int|
                0 <= i < old(self).debug_symbols@.len() && 0 <= k < old(self).debug_symbols@[i].functions@.len() && #[trigger] has_name(old(self).debug_symbols@[i].functions@[k], name@),
        ensures
            exists|i: int, k: int|
                0 <= i < old(self).debug_symbols@.len() && 0 <= k < old(self).debug_symbols@[i].functions@.len() && #[trigger] has_name(old(self).debug_symbols@[i].functions@[k], name@) && r.skipped_sections@ == old(self).skipped_sections@.push(
                    (
                        old(self).debug_symbols@[i].functions@[k].start,
                        old(self).debug_symbols@[i].functions@[k].end,
                    ),
                ),
            *r == (Debugger { skipped_sections: r.skipped_sections, ..*old(self) }),
            *final(self) == *final(r),
    {
        let mut i: usize = 0;
        while i < self.debug_symbols.len()
            invariant
                i <= self.debug_symbols@.len(),
                *self == *old(self),
                exists|a: int, k: int|
                    i <= a < self.debug_symbols@.len() && 0 <= k < self.debug_symbols@[a].functions@.len()
                        && #[trigger] has_name(self.debug_symbols@[a].functions@[k], name@),
            decreases self.debug_symbols@.len() - i,
        {
            let functions = &self.debug_symbols[i].functions;
            let mut k: usize = 0;
            while k < functions.len()
                invariant
                    k <= functions@.len(),
                    i < self.debug_symbols@.len(),
                    *functions == self.debug_symbols@[i as int].functions,
                    *self == *old(self),
                    forall|j: int| 0 <= j < k ==> !has_name(#[trigger] functions@[j], name@),
                decreases functions@.len() - k,
            {
                let matches = match &functions[k].name {
                    Some(n) => crate::comp::source::same_text(n.as_str(), name),
                    None => false,
                };
                if matches {
                    let start = functions[k].start;
                    let end = functions[k].end;
                    proof {
                        assert(has_name(functions@[k as int], name@));
                    }
                    self.skipped_sections.push((start, end));
                    proof {
                        let f = old(self).debug_symbols@[i as int].functions@[k as int];
                        assert(has_name(f, name@));
                        assert(self.skipped_sections@ == old(self).skipped_sections@.push((f.start, f.end)));
                    }
                    return self;
                }
                k = k + 1;
            }
            proof {
                assert forall|k: int| 0 <= k < functions@.len() implies !has_name(#[trigger] functions@[k], name@) by {
                }
            }
            i = i + 1;
        }
        self
    }

    /// Whether `ip` lies in a skipped section.
    pub fn is_skipped(&self, ip: u32) -> (r: bool)
        ensures
            r == is_in_sections(self.skipped_sections@, ip),
    {
        let mut k: usize = 0;
        while k < self.skipped_sections.len()
            invariant
                k <= self.skipped_sections@.len(),
                forall|j: int|
                    0 <= j < k ==> !(#[trigger] self.skipped_sections@[j].0 <= ip && ip
                        < self.skipped_sections@[j].1),
            decreases self.skipped_sections@.len() - k,
        {
            let (s, e) = self.skipped_sections[k];
            if s <= ip && ip < e {
                return true;
            }
            k = k + 1;
        }
        false
    }

    /// Whether the instruction at `ip` is not shown.
    pub fn is_silent_at(&self, ip: u32) -> (r: bool)
        ensures
            r == (self.is_silent || is_in_sections(self.skipped_sections@, ip)),
    {
        self.is_silent || self.is_skipped(ip)
    }

    /// Pauses when `irq` occurs.
    pub fn break_on_irq(&mut self, irq: Interrupt) -> (r: &mut Self)
        ensures
            r.interrupt_handler@ == old(self).interrupt_handler@.push(
                InterruptHandler { interrupt: Some(irq), action: InterruptAction::Pause },
            ),
            *r == (Debugger { interrupt_handler: r.interrupt_handler, ..*old(self) }),
            *final(self) == *final(r),
    {
        self.interrupt_handler.push(
            InterruptHandler { interrupt: Some(irq), action: InterruptAction::Pause },
        );
        self
    }

    /// Shows the name of every interrupt that occurs.
    pub fn emit_interrupt_names(&mut self) -> (r: &mut Self)
        ensures
            r.interrupt_handler@ == old(self).interrupt_handler@.push(
                InterruptHandler { interrupt: None, action: InterruptAction::EmitName },
            ),
            *r == (Debugger { interrupt_handler: r.interrupt_handler, ..*old(self) }),
            *final(self) == *final(r),
    {
        self.interrupt_handler.push(InterruptHandler { interrupt: None, action: InterruptAction::EmitName });
        self
    }

    /// Reacts to `interrupt`: the wishes of all handlers that react to it,
    /// combined, and how often its name is to be shown. A handler that
    /// pauses also makes the debugger step.
    pub fn interrupt_occured(&mut self, interrupt: Interrupt) -> (r: (PluginWishes, usize))
        ensures
            r.0.pause_execution == (reactions(
                old(self).interrupt_handler@,
                interrupt,
                InterruptAction::Pause,
                old(self).interrupt_handler@.len() as int,
            ) > 0),
            !r.0.stop_execution,
            forall|i: int| 0 <= i < 18 ==> #[trigger] r.0.register_changes@[i] is None,
            r.0.memory_changes@.len() == 0,
            r.1 == reactions(
                old(self).interrupt_handler@,
                interrupt,
                InterruptAction::EmitName,
                old(self).interrupt_handler@.len() as int,
            ),
            *final(self) == (Debugger {
                is_stepping: old(self).is_stepping || r.0.pause_execution,
                ..*old(self)
            }),
    {
        let mut wishes = PluginWishes::default();
        let mut names: usize = 0;
        let n = self.interrupt_handler.len();
        let mut k: usize = 0;
        while k < n
            invariant
                n == self.interrupt_handler@.len(),
                k <= n,
                *self == *old(self),
                names == reactions(self.interrupt_handler@, interrupt, InterruptAction::EmitName, k as int),
                names <= k,
                wishes.pause_execution == (reactions(
                    self.interrupt_handler@,
                    interrupt,
                    InterruptAction::Pause,
                    k as int,
                ) > 0),
                !wishes.stop_execution,
                forall|i: int| 0 <= i < 18 ==> #[trigger] wishes.register_changes@[i] is None,
                wishes.memory_changes@.len() == 0,
            decreases n - k,
        {
            let handler = self.interrupt_handler[k];
            let applies = match handler.interrupt {
                Some(i) => i == interrupt,
                None => true,
            };
            let mut wish = PluginWishes::default();
            if applies {
                match handler.action {
                    InterruptAction::Pause => {
                        wish.pause_execution = true;
                    },
                    InterruptAction::EmitName => {
                        names = names + 1;
                    },
                }
            }
            let ghost before = wishes;
            wishes = wishes.combined_with(wish);
            proof {
                assert(before.memory_changes@ + wish.memory_changes@ =~= Seq::<(u32, u8)>::empty());
                if wishes.memory_changes@.len() > 0 {
                    crate::plugins::lemma_first_change_sorted(wishes.memory_changes@, 0);
                }
            }
            k = k + 1;
        }
        if wishes.pause_execution() {
            self.is_stepping = true;
        }
        (wishes, names)
    }

    /// Follows the stack of calls through the instruction that just ran at
    /// `ip`, when watching it.
    fn watch_stack_changes_afterwards(&mut self, instruction: &Instruction, ip: u32)
        requires
            old(self).watch_stack ==> can_follow_stack(*instruction, ip),
        ensures
            final(self).stackframe@ == if old(self).watch_stack {
                stack_after(old(self).stackframe@, *instruction, ip)
            } else {
                old(self).stackframe@
            },
            *final(self) == (Debugger { stackframe: final(self).stackframe, ..*old(self) }),
    {
        if !self.watch_stack {
            return;
        }
        let len = self.stackframe.len();
        if len > 0 && self.stackframe[len - 1] == ip {
            let _ = self.stackframe.pop();
        }
        match instruction.op {
            InstructionOp::Branch { store_return_address_in_link_register, instruction_size, .. } => {
                if store_return_address_in_link_register {
                    self.stackframe.push(ip + instruction_size as u32);
                }
            },
            _ => {},
        }
    }

    /// The decisions after the instruction `instruction` ran at `ip` and
    /// left `registers`: records it in the history, follows the stack,
    /// reports the watched bytes that were read or written (stepping where
    /// they ask for it) and empties the logs of `memory`.
    pub fn after_executing(
        &mut self,
        registers: &Registers,
        instruction: &Instruction,
        ip: u32,
        memory: &mut Memory,
    ) -> (r: AfterExecution)
        requires
            old(self).history.wf(),
            old(memory).wf(),
            old(self).history.capacity > 1 ==> (old(self).history.next_entry matches Some(b)
                && can_record(b, old(memory)@)),
            old(self).watch_stack ==> can_follow_stack(*instruction, ip),
        ensures
            final(self).history.wf(),
            final(memory).wf(),
            final(memory)@ == (MemoryView { reads: Seq::empty(), writes: Seq::empty(), ..old(memory)@ }),
            final(self).history.next_entry is None,
            final(self).stackframe@ == if old(self).watch_stack {
                stack_after(old(self).stackframe@, *instruction, ip)
            } else {
                old(self).stackframe@
            },
            r.memory_changes@ == old(memory)@.writes,
            final(self).is_stepping == (old(self).is_stepping || (exists|k: int|
                0 <= k < old(memory)@.reads.len() && #[trigger] steps_on_read(
                    old(self).memory_address_watchers@,
                    old(memory)@.reads[k].0,
                )) || (exists|k: int|
                0 <= k < old(memory)@.writes.len() && #[trigger] steps_on_write(
                    old(self).memory_address_watchers@,
                    old(memory)@.writes[k].0,
                ))),
            r.print_instruction == (final(self).is_stepping && !old(self).is_stepping
                && !is_in_sections(old(self).skipped_sections@, ip)),
            r.print_changes == (!(old(self).is_silent || is_in_sections(
                old(self).skipped_sections@,
                ip,
            )) || final(self).is_stepping),
            final(self).breakpoints == old(self).breakpoints,
            final(self).skipped_sections == old(self).skipped_sections,
            final(self).is_silent == old(self).is_silent,
            r.messages@ == read_messages(old(self).memory_address_watchers@, old(memory)@.reads)
                + change_messages(old(self).memory_address_watchers@, old(memory)@.writes),
            final(self).memory_address_watchers@ == seen_after(
                old(self).memory_address_watchers@,
                old(memory)@.writes,
            ),
            old(memory)@.writes.len() > 0 ==> (watcher_of(
                old(self).memory_address_watchers@,
                old(memory)@.writes.last().0,
            ) matches Some(w) ==> final(self).memory_address_watchers@[w].last_seen_value
                == old(memory)@.writes.last().2),
    {
        self.history.finish_entry(*registers, memory);
        self.watch_stack_changes_afterwards(instruction, ip);
        let should_print_instruction = !self.is_stepping && !self.is_skipped(ip);
        let (reads, writes) = memory.take_watched_accesses();
        let mut messages: Vec<WatchMessage> = Vec::new();
        let ghost watchers0 = self.memory_address_watchers@;
        let step_on_read = report_reads(&self.memory_address_watchers, &reads, &mut messages);
        let step_on_write = report_writes(&self.memory_address_watchers, &writes, &mut messages);
        if step_on_read || step_on_write {
            self.is_stepping = true;
        }
        record_writes(&mut self.memory_address_watchers, &writes);
        proof {
            lemma_seen_after_keeps_addresses(watchers0, writes@);
            if writes@.len() > 0 {
                lemma_watcher_of_is_first(watchers0, writes@.last().0);
                lemma_seen_after_keeps_addresses(watchers0, writes@.drop_last());
            }
        }
        let memory_changes = writes;
        let print_instruction = self.is_stepping && should_print_instruction;
        let print_changes = !self.is_silent_at(ip) || self.is_stepping;
        AfterExecution { messages, print_instruction, print_changes, memory_changes }
    }

    /// What the breakpoints at `ip` decide, where `custom[i]` is the result
    /// of the embedder's condition `i`: see `breakpoint_outcome`.
    pub fn breakpoint_outcome(&self, ip: u32, custom: &Vec<bool>) -> (r: BreakpointOutcome)
        ensures
            (r.stop, r.fatal, r.emitted@) == breakpoint_outcome(self.breakpoints@, ip, custom@, 0),
    {
        let ghost whole = breakpoint_outcome(self.breakpoints@, ip, custom@, 0);
        let mut emitted: Vec<RegisterIndex> = Vec::new();
        let mut k: usize = 0;
        while k < self.breakpoints.len()
            invariant
                k <= self.breakpoints@.len(),
                whole == breakpoint_outcome(self.breakpoints@, ip, custom@, 0),
                ({
                    let rest = breakpoint_outcome(self.breakpoints@, ip, custom@, k as int);
                    whole == (rest.0, rest.1, emitted@ + rest.2)
                }),
            decreases self.breakpoints@.len() - k,
        {
            let breakpoint = self.breakpoints[k];
            if breakpoint.ip == ip {
                let met = match breakpoint.condition {
                    BreakpointCondition::Panic => {
                        return BreakpointOutcome { stop: false, fatal: true, emitted };
                    },
                    BreakpointCondition::Custom(i) => {
                        if i >= custom.len() {
                            return BreakpointOutcome { stop: false, fatal: true, emitted };
                        }
                        custom[i]
                    },
                    BreakpointCondition::Always => true,
                };
                if met {
                    match breakpoint.action {
                        BreakpointAction::Stop => {
                            return BreakpointOutcome { stop: true, fatal: false, emitted };
                        },
                        BreakpointAction::EmitRegister(register) => {
                            let ghost before = emitted@;
                            emitted.push(register);
                            assert(before + (seq![register] + breakpoint_outcome(
                                self.breakpoints@,
                                ip,
                                custom@,
                                k + 1,
                            ).2) =~= emitted@ + breakpoint_outcome(self.breakpoints@, ip, custom@, k + 1).2);
                        },
                    }
                }
            }
            k = k + 1;
        }
        assert(emitted@ + Seq::<RegisterIndex>::empty() =~= emitted@);
        BreakpointOutcome { stop: false, fatal: false, emitted }
    }

    /// The index of the first breakpoint from `from` on that sits at `ip`.
    pub fn next_breakpoint_at(&self, ip: u32, from: usize) -> (r: Option<usize>)
        ensures
            match r {
                Some(k) => from <= k < self.breakpoints@.len() && self.breakpoints@[k as int].ip == ip
                    && forall|j: int| from <= j < k ==> #[trigger] self.breakpoints@[j].ip != ip,
                None => forall|j: int|
                    from <= j < self.breakpoints@.len() ==> #[trigger] self.breakpoints@[j].ip != ip,
            },
    {
        let mut k: usize = from;
        while k < self.breakpoints.len()
            invariant
                from <= k || k >= self.breakpoints@.len(),
                forall|j: int| from <= j < k ==> #[trigger] self.breakpoints@[j].ip != ip,
            decreases self.breakpoints@.len() - k,
        {
            if self.breakpoints[k].ip == ip {
                return Some(k);
            }
            k = k + 1;
        }
        None
    }

    /// The decisions before the instruction `instruction` runs at `ip` with
    /// `registers`, once the embedder went through the breakpoints at `ip`
    /// and found whether one stops (`hit`): notes the instruction for the
    /// history, steps when a breakpoint stopped or when already stepping,
    /// and then drops the fragile breakpoints at `ip`.
    pub fn should_execute(
        &mut self,
        registers: &Registers,
        instruction: &Instruction,
        ip: u32,
        memory: &Memory,
        hit: bool,
    ) -> (r: BeforeExecution)
        requires
            old(self).history.wf(),
        ensures
            final(self).history.wf(),
            final(self).registers == *registers,
            final(self).history.next_entry matches Some(b) && b.ip == ip && b.registers_before
                == *registers && b.instruction == *instruction,
            final(self).history.entries@ == old(self).history.entries@,
            final(self).history.capacity == old(self).history.capacity,
            final(self).is_stepping == (old(self).is_stepping || hit),
            r.ask_for_command == final(self).is_stepping,
            r.print_instruction == (!(old(self).is_silent || is_in_sections(
                old(self).skipped_sections@,
                ip,
            )) || final(self).is_stepping),
            final(self).breakpoints@ == if final(self).is_stepping {
                old(self).breakpoints@.filter(survives_hit(ip))
            } else {
                old(self).breakpoints@
            },
            final(self).skipped_sections == old(self).skipped_sections,
            final(self).is_silent == old(self).is_silent,
            final(self).stackframe == old(self).stackframe,
    {
        self.registers = *registers;
        self.history.start_entry(ip, *registers, *instruction, memory);
        let should_continue = !self.is_stepping && !hit;
        self.is_stepping = !should_continue;
        let print_instruction = !self.is_silent_at(ip) || self.is_stepping;
        if !should_continue {
            let mut kept: Vec<Breakpoint> = Vec::new();
            let ghost all = self.breakpoints@;
            let mut k: usize = 0;
            while k < self.breakpoints.len()
                invariant
                    k <= self.breakpoints@.len(),
                    self.breakpoints@ == all,
                    kept@ == all.take(k as int).filter(survives_hit(ip)),
                decreases self.breakpoints@.len() - k,
            {
                let b = self.breakpoints[k];
                proof {
                    reveal(Seq::filter);
                    assert(all.take(k + 1).drop_last() =~= all.take(k as int));
                    assert(all.take(k + 1).last() == b);
                }
                if b.ip != ip || !b.fragile {
                    kept.push(b);
                }
                k = k + 1;
            }
            assert(all.take(all.len() as int) =~= all);
            self.breakpoints = kept;
        }
        BeforeExecution { print_instruction, ask_for_command: !should_continue }
    }

    /// Carries out a command typed while stopped at `ip` with `registers`:
    /// the wishes to hand to the emulator, and what to show.
    pub fn execute_command(
        &mut self,
        command: &Command,
        registers: Registers,
        ip: u32,
        memory: &Memory,
    ) -> (r: (PluginWishes, CommandOutput))
        requires
            old(self).history.wf(),
            memory.wf(),
            !(command is WriteMemory),
            command matches Command::ReadMemory(address) ==> (address.can_resolve(
                registers,
                memory@,
            ) && address.value(registers, memory@) % 4 == 0 && memory@.can_read(
                address.value(registers, memory@),
                4,
            )),
        ensures
            final(self).history.wf(),
            !r.0.stop_execution,
            r.0.pause_execution == match command {
                Command::JumpOut => last_other(old(self).stackframe@, ip) is None,
                Command::Continue | Command::Step => false,
                _ => true,
            },
            !(command is GoBack) ==> (forall|i: int| 0 <= i < 18 ==> #[trigger] r.0.register_changes@[i] is None)
                && r.0.memory_changes@.len() == 0 && final(self).history == old(self).history,
            command is Continue ==> !final(self).is_stepping,
            command is JumpOut ==> match last_other(old(self).stackframe@, ip) {
                Some(target) => !final(self).is_stepping && final(self).breakpoints@ == old(self).breakpoints@.push(
                    Breakpoint {
                        ip: target,
                        condition: BreakpointCondition::Always,
                        action: BreakpointAction::Stop,
                        fragile: true,
                    },
                ) && r.1 == CommandOutput::Nothing,
                None => r.1 == CommandOutput::EmptyStackFrame && final(self).breakpoints
                    == old(self).breakpoints,
            },
            command is StartEmittingAssembly ==> !final(self).is_silent,
            command is StopEmittingAssembly ==> final(self).is_silent,
            command is ShowRegisters ==> r.1 == CommandOutput::Registers,
            command is ShowStackFrame ==> r.1 == CommandOutput::StackFrame,
            command is Help ==> r.1 == CommandOutput::Help,
            command matches Command::Echo(v) ==> r.1 matches CommandOutput::Echo(s) && s@ == v@,
            command matches Command::ReadMemory(address) ==> r.1 == (CommandOutput::MemoryValue {
                address: address.value(registers, memory@),
                value: memory@.word(address.value(registers, memory@)),
            }),
            command is GoBack ==> {
                &&& old(self).history.entries@.len() > 0 ==> {
                    let e = old(self).history.entries@.last();
                    &&& final(self).history.entries@ == old(self).history.entries@.drop_last()
                    &&& forall|i: int| 0 <= i < 18 ==> #[trigger] r.0.register_changes@[i] == Some(e.registers@[i])
                    &&& r.0.memory_changes@ == match e.address_range {
                        Some(range) => Seq::new(
                            e.memory@.len(),
                            |k: int| ((range.start + k) as u32, e.memory@[k]),
                        ),
                        None => Seq::empty(),
                    }
                }
                &&& old(self).history.entries@.len() == 0 ==> (forall|i: int| 0 <= i < 18 ==> #[trigger] r.0.register_changes@[i] is None)
                    && r.0.memory_changes@.len() == 0
                &&& r.1 == CommandOutput::Nothing
            },
            !(command is Continue) && !(command is JumpOut) ==> final(self).is_stepping == old(self).is_stepping,
            !(command is StartEmittingAssembly) && !(command is StopEmittingAssembly) ==> final(self).is_silent == old(self).is_silent,
            !(command is JumpOut) ==> final(self).breakpoints == old(self).breakpoints,
            final(self).stackframe == old(self).stackframe,
    {
        let mut pause_execution = true;
        let mut register_changes: [Option<u32>; 18] = [None; 18];
        let mut memory_changes: Vec<(u32, u8)> = Vec::new();
        let mut output = CommandOutput::Nothing;
        match command {
            Command::GoBack => {
                let ghost before = memory_changes@;
                self.history.go_back(&mut register_changes, &mut memory_changes);
                proof {
                    if old(self).history.entries@.len() > 0 {
                        let e = old(self).history.entries@.last();
                        let m = match e.address_range {
                            Some(range) => Seq::new(
                                e.memory@.len(),
                                |k: int| ((range.start + k) as u32, e.memory@[k]),
                            ),
                            None => Seq::empty(),
                        };
                        assert(before + m =~= m);
                    }
                }
            },
            Command::ShowRegisters => {
                output = CommandOutput::Registers;
            },
            Command::ShowStackFrame => {
                output = CommandOutput::StackFrame;
            },
            Command::JumpOut => {
                match last_other_exec(&self.stackframe, ip) {
                    Some(target) => {
                        self.breakpoints.push(
                            Breakpoint {
                                ip: target,
                                condition: BreakpointCondition::Always,
                                action: BreakpointAction::Stop,
                                fragile: true,
                            },
                        );
                        self.is_stepping = false;
                        pause_execution = false;
                    },
                    None => {
                        output = CommandOutput::EmptyStackFrame;
                    },
                }
            },
            Command::Continue => {
                self.is_stepping = false;
                pause_execution = false;
            },
            Command::Step => {
                pause_execution = false;
            },
            Command::StartEmittingAssembly => {
                self.is_silent = false;
            },
            Command::StopEmittingAssembly => {
                self.is_silent = true;
            },
            Command::ReadMemory(address) => {
                let address = address.resolve(registers, memory);
                let value = memory.read_word_silent(address);
                output = CommandOutput::MemoryValue { address, value };
            },
            Command::WriteMemory(_, _) => {},
            Command::Help => {
                output = CommandOutput::Help;
            },
            Command::Echo(v) => {
                output = CommandOutput::Echo(v.clone());
            },
        }
        (PluginWishes { pause_execution, stop_execution: false, register_changes, memory_changes }, output)
    }
}

/// The last entry of `stack` that is not `ip`.
fn last_other_exec(stack: &Vec<u32>, ip: u32) -> (r: Option<u32>)
    ensures
        r == last_other(stack@, ip),
{
    let mut k: usize = stack.len();
    assert(stack@.take(k as int) =~= stack@);
    while k > 0
        invariant
            k <= stack@.len(),
            last_other(stack@, ip) == last_other(stack@.take(k as int), ip),
        decreases k,
    {
        let ghost prefix = stack@.take(k as int);
        if stack[k - 1] != ip {
            return Some(stack[k - 1]);
        }
        assert(prefix.drop_last() =~= stack@.take(k - 1));
        k = k - 1;
    }
    None
}

/// Appends to `messages` the reports on the reads `reads` of watched bytes;
/// true when the first watcher of one of them makes a read step.
#[verifier::rlimit(60)]
fn report_reads(
    watchers: &Vec<MemoryAddressWatcher>,
    reads: &Vec<(u32, u8)>,
    messages: &mut Vec<WatchMessage>,
) -> (step: bool)
    ensures
        final(messages)@ == old(messages)@ + read_messages(watchers@, reads@),
        step == exists|j: int| 0 <= j < reads@.len() && #[trigger] steps_on_read(watchers@, reads@[j].0),
{
    let ghost start = messages@;
    let mut step = false;
    let mut k: usize = 0;
    while k < reads.len()
        invariant
            k <= reads@.len(),
            step == exists|j: int| 0 <= j < k && #[trigger] steps_on_read(watchers@, reads@[j].0),
            messages@ == start + read_messages(watchers@, reads@.take(k as int)),
        decreases reads@.len() - k,
    {
        proof {
            assert(reads@.take(k + 1).drop_last() =~= reads@.take(k as int));
        }
        let (addr, val) = reads[k];
        let ghost earlier = read_messages(watchers@, reads@.take(k as int));
        let found = find_watcher(watchers, addr);
        let stepped = match found {
            Some(w) => {
                if watchers[w].print_on_read {
                    messages.push(WatchMessage::Read { address: addr, value: val });
                    assert(messages@ =~= start + earlier.push(WatchMessage::Read { address: addr, value: val }));
                }
                watchers[w].step_on_read
            },
            None => false,
        };
        assert(messages@ == start + read_messages(watchers@, reads@.take(k + 1)));
        assert(stepped == steps_on_read(watchers@, reads@[k as int].0));
        if stepped {
            step = true;
        }
        k = k + 1;
    }
    assert(reads@.take(reads@.len() as int) =~= reads@);
    step
}

/// Appends to `messages` a report on each write of `writes` to a watched
/// byte; true when the first watcher of one of them makes a write step.
fn report_writes(
    watchers: &Vec<MemoryAddressWatcher>,
    writes: &Vec<(u32, u8, u8)>,
    messages: &mut Vec<WatchMessage>,
) -> (step: bool)
    ensures
        final(messages)@ == old(messages)@ + change_messages(watchers@, writes@),
        step == exists|j: int| 0 <= j < writes@.len() && #[trigger] steps_on_write(watchers@, writes@[j].0),
{
    let ghost start = messages@;
    let mut step = false;
    let mut k: usize = 0;
    while k < writes.len()
        invariant
            k <= writes@.len(),
            step == exists|j: int| 0 <= j < k && #[trigger] steps_on_write(watchers@, writes@[j].0),
            messages@ == start + change_messages(watchers@, writes@.take(k as int)),
        decreases writes@.len() - k,
    {
        proof {
            assert(writes@.take(k + 1).drop_last() =~= writes@.take(k as int));
        }
        let (addr, old, new) = writes[k];
        let stepped = match find_watcher(watchers, addr) {
            Some(w) => {
                messages.push(WatchMessage::Change { address: addr, old, new });
                watchers[w].step_on_write
            },
            None => false,
        };
        assert(stepped == steps_on_write(watchers@, writes@[k as int].0));
        if stepped {
            step = true;
        }
        proof {
            assert(messages@ =~= start + change_messages(watchers@, writes@.take(k + 1)));
        }
        k = k + 1;
    }
    assert(writes@.take(writes@.len() as int) =~= writes@);
    step
}

/// Lets the first watcher of each byte written by `writes` see the value
/// written last.
fn record_writes(watchers: &mut Vec<MemoryAddressWatcher>, writes: &Vec<(u32, u8, u8)>)
    ensures
        final(watchers)@ == seen_after(old(watchers)@, writes@),
{
    let ghost start = watchers@;
    let mut k: usize = 0;
    while k < writes.len()
        invariant
            k <= writes@.len(),
            watchers@.len() == start.len(),
            watchers@ == seen_after(start, writes@.take(k as int)),
            forall|i: int| 0 <= i < start.len() ==> #[trigger] watchers@[i].address == start[i].address,
        decreases writes@.len() - k,
    {
        proof {
            assert(writes@.take(k + 1).drop_last() =~= writes@.take(k as int));
            lemma_watcher_of_same_addresses(watchers@, start, writes@[k as int].0);
        }
        let (addr, _old, new) = writes[k];
        match find_watcher(watchers, addr) {
            Some(w) => {
                let mut watcher = watchers[w];
                watcher.last_seen_value = new;
                watchers.set(w, watcher);
            },
            None => {},
        }
        proof {
            assert(watchers@ =~= seen_after(start, writes@.take(k + 1)));
        }
        k = k + 1;
    }
    assert(writes@.take(writes@.len() as int) =~= writes@);
}

/// The index of the first watcher of `address`.
fn find_watcher(watchers: &Vec<MemoryAddressWatcher>, address: u32) -> (r: Option<usize>)
    ensures
        match r {
            Some(w) => watcher_of(watchers@, address) == Some(w as int) && w < watchers@.len(),
            None => watcher_of(watchers@, address) is None,
        },
{
    let mut k: usize = 0;
    while k < watchers.len()
        invariant
            k <= watchers@.len(),
            forall|j: int| 0 <= j < k ==> #[trigger] watchers@[j].address != address,
        decreases watchers@.len() - k,
    {
        if watchers[k].address == address {
            proof {
                let c = choose|c: int|
                    0 <= c < watchers@.len() && #[trigger] watchers@[c].address == address && forall|j: int|
                        0 <= j < c ==> #[trigger] watchers@[j].address != address;
                assert(watchers@[k as int].address == address);
                assert(c == k);
            }
            return Some(k);
        }
        k = k + 1;
    }
    None
}

/// Recording writes keeps the number of watchers and their addresses.
proof fn lemma_seen_after_keeps_addresses(
    watchers: Seq<MemoryAddressWatcher>,
    writes: Seq<(u32, u8, u8)>,
)
    ensures
        seen_after(watchers, writes).len() == watchers.len(),
        forall|i: int|
            0 <= i < watchers.len() ==> #[trigger] seen_after(watchers, writes)[i].address
                == watchers[i].address,
    decreases writes.len(),
{
    if writes.len() > 0 {
        lemma_seen_after_keeps_addresses(watchers, writes.drop_last());
        lemma_watcher_of_is_first(watchers, writes.last().0);
    }
}

/// The first watcher of `address` is a watcher of `address` with none
/// before it; where there is none, no watcher has `address`.
proof fn lemma_watcher_of_is_first(watchers: Seq<MemoryAddressWatcher>, address: u32)
    ensures
        match watcher_of(watchers, address) {
            Some(w) => 0 <= w < watchers.len() && watchers[w].address == address && forall|j: int|
                0 <= j < w ==> #[trigger] watchers[j].address != address,
            None => forall|k: int| 0 <= k < watchers.len() ==> #[trigger] watchers[k].address != address,
        },
{
    if exists|k: int| 0 <= k < watchers.len() && #[trigger] watchers[k].address == address {
        let k = choose|k: int| 0 <= k < watchers.len() && #[trigger] watchers[k].address == address;
        lemma_first_index_exists(watchers, address, k);
    }
}

/// Watchers with the same addresses, in the same order, have the same first
/// watcher of every address.
proof fn lemma_watcher_of_same_addresses(
    a: Seq<MemoryAddressWatcher>,
    b: Seq<MemoryAddressWatcher>,
    address: u32,
)
    requires
        a.len() == b.len(),
        forall|i: int| 0 <= i < a.len() ==> #[trigger] a[i].address == b[i].address,
    ensures
        watcher_of(a, address) == watcher_of(b, address),
{
    if exists|k: int| 0 <= k < a.len() && #[trigger] a[k].address == address {
        let k = choose|k: int| 0 <= k < a.len() && #[trigger] a[k].address == address;
        assert(b[k].address == address);
        lemma_first_index_exists(a, address, k);
        lemma_first_index_exists(b, address, k);
        let ca = choose|c: int|
            0 <= c < a.len() && #[trigger] a[c].address == address && forall|j: int|
                0 <= j < c ==> #[trigger] a[j].address != address;
        let cb = choose|c: int|
            0 <= c < b.len() && #[trigger] b[c].address == address && forall|j: int|
                0 <= j < c ==> #[trigger] b[j].address != address;
        assert(a[cb].address == address);
        assert(b[ca].address == address);
        if ca < cb {
            assert(b[ca].address != address);
        } else if cb < ca {
            assert(a[cb].address != address);
        }
        assert(ca == cb);
    } else {
        assert forall|k: int| 0 <= k < b.len() implies #[trigger] b[k].address != address by {
            assert(a[k].address == b[k].address);
        }
    }
}

/// Where some watcher has `address`, a first one has it.
proof fn lemma_first_index_exists(a: Seq<MemoryAddressWatcher>, address: u32, k: int)
    requires
        0 <= k < a.len(),
        a[k].address == address,
    ensures
        exists|c: int|
            0 <= c < a.len() && #[trigger] a[c].address == address && forall|j: int|
                0 <= j < c ==> #[trigger] a[j].address != address,
    decreases k,
{
    if exists|j: int| 0 <= j < k && #[trigger] a[j].address == address {
        let j = choose|j: int| 0 <= j < k && #[trigger] a[j].address == address;
        lemma_first_index_exists(a, address, j);
    } else {
        assert(forall|j: int| 0 <= j < k ==> #[trigger] a[j].address != address);
    }
}

} // verus!
