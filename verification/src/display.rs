//! Instructions written as assembly text, optionally with the values that
//! their registers hold and with colors for a terminal.
use vstd::prelude::*;
use vstd::string::StringExecFns;

use colorable::Colorable;

use crate::hex::{hex_digits, hex_string};
use crate::instructions::{
    condition_holds, BranchTarget, Condition, Instruction, InstructionFlags, InstructionOp,
    MsrFieldMask, StoreLoadManyAddressingMode, StoreLoadMemoryAddress, StoreLoadMemorySize,
};
use crate::registers::{register_name, RegisterIndex, RegisterList, Registers};
use crate::shifter_operand::{ShiftOperator, ShifterOperand, ShifterOperandInstructionOp};

verus! {

/// How instructions are written: which registers stand out, whether the
/// text goes to a terminal (and may be colored), and whether registers are
/// shown by the values they hold in `register_values`.
#[derive(Clone, Copy)]
pub struct DisplayContext {
    pub highlighted_registers: RegisterList,
    pub is_tty: bool,
    pub register_values: Registers,
    pub use_register_values: bool,
}

impl DisplayContext {
    /// The same context showing registers by name.
    pub fn disable_register_values(self) -> (r: DisplayContext)
        ensures
            r == (DisplayContext { use_register_values: false, ..self }),
    {
        DisplayContext { use_register_values: false, ..self }
    }
}

impl Default for DisplayContext {
    /// Registers by name, nothing highlighted, no terminal, and a register
    /// file of zeros.
    fn default() -> (r: DisplayContext)
        ensures
            r.highlighted_registers.bits() == 0,
            !r.is_tty,
            !r.use_register_values,
            forall|b: nat, i: nat| b < 6 && i < 18 ==> #[trigger] r.register_values.slot(b, i) == 0u32,
    {
        DisplayContext {
            highlighted_registers: RegisterList::empty(),
            is_tty: false,
            register_values: Registers::zeroed(),
            use_register_values: false,
        }
    }
}

/// Whether `r` can be shown in `ctx`: where the context shows values, the
/// register must be readable.
pub open spec fn can_show_register(r: RegisterIndex, ctx: DisplayContext) -> bool {
    ctx.use_register_values ==> ctx.register_values.can_read(r)
}

/// Whether every register of an operand can be shown in `ctx`.
pub open spec fn can_show_operand(o: ShifterOperand, ctx: DisplayContext) -> bool {
    match o {
        ShifterOperand::Immediate(_, _) => true,
        ShifterOperand::Register(r) => can_show_register(r, ctx),
        ShifterOperand::RegisterImmediate(r, _, _) => can_show_register(r, ctx),
        ShifterOperand::RegisterRegister(r, _, r2) => can_show_register(r, ctx) && can_show_register(r2, ctx),
    }
}

/// Whether every register of `list` can be shown in `ctx`.
pub open spec fn can_show_list(list: RegisterList, ctx: DisplayContext) -> bool {
    forall|r: RegisterIndex| #[trigger] list.has(r.raw()) ==> can_show_register(r, ctx)
}

/// Whether a branch target can be shown in `ctx`.
pub open spec fn can_show_target(t: BranchTarget, ctx: DisplayContext) -> bool {
    match t {
        BranchTarget::Offset(_) => true,
        BranchTarget::RegisterWithOffset(r, _) => can_show_register(r, ctx),
    }
}

/// `text` in cyan on a terminal: the escape sequence of colour 14 before
/// it and the reset sequence after it.
pub open spec fn cyan_text(text: Seq<char>) -> Seq<char> {
    "\x1b[38;5;14m"@ + text + "\x1b[m"@
}

/// `text` in dark grey on a terminal: the escape sequence of colour 8
/// before it and the reset sequence after it.
pub open spec fn dark_grey_text(text: Seq<char>) -> Seq<char> {
    "\x1b[38;5;8m"@ + text + "\x1b[m"@
}

/// `colorable::Colorable::cyan`, displayed: the crate writes the escape
/// sequence of colour 14, the text and the reset sequence.
#[verifier::external_body]
fn cyan(text: &str) -> (r: String)
    ensures
        r@ == cyan_text(text@),
{
    format!("{}", text.cyan())
}

/// `colorable::Colorable::dark_grey`, displayed: the crate writes the
/// escape sequence of colour 8, the text and the reset sequence.
#[verifier::external_body]
fn dark_grey(text: &str) -> (r: String)
    ensures
        r@ == dark_grey_text(text@),
{
    format!("{}", text.dark_grey())
}

/// The suffix of a condition: none for `Always`.
pub open spec fn condition_text(c: Condition) -> Seq<char> {
    match c {
        Condition::Equal => "EQ"@,
        Condition::NotEqual => "NE"@,
        Condition::CarrySet => "CS"@,
        Condition::CarryClear => "CC"@,
        Condition::Negative => "MI"@,
        Condition::Positive => "PL"@,
        Condition::OverflowSet => "VS"@,
        Condition::OverflowClear => "VC"@,
        Condition::UnsignedHigher => "HI"@,
        Condition::UnsignedLowerOrSame => "LS"@,
        Condition::GreaterThanEquals => "GE"@,
        Condition::LessThan => "LT"@,
        Condition::GreaterThan => "GT"@,
        Condition::LessThanEquals => "LE"@,
        Condition::Always => ""@,
    }
}

impl Condition {
    /// The suffix of the condition.
    pub fn text(&self) -> (r: &'static str)
        ensures
            r@ == condition_text(*self),
    {
        match self {
            Condition::Equal => "EQ",
            Condition::NotEqual => "NE",
            Condition::CarrySet => "CS",
            Condition::CarryClear => "CC",
            Condition::Negative => "MI",
            Condition::Positive => "PL",
            Condition::OverflowSet => "VS",
            Condition::OverflowClear => "VC",
            Condition::UnsignedHigher => "HI",
            Condition::UnsignedLowerOrSame => "LS",
            Condition::GreaterThanEquals => "GE",
            Condition::LessThan => "LT",
            Condition::GreaterThan => "GT",
            Condition::LessThanEquals => "LE",
            Condition::Always => "",
        }
    }
}

/// The suffix of a transfer size.
pub open spec fn size_text(s: StoreLoadMemorySize) -> Seq<char> {
    match s {
        StoreLoadMemorySize::Byte => "B"@,
        StoreLoadMemorySize::Halfword => "H"@,
        StoreLoadMemorySize::Word => ""@,
        StoreLoadMemorySize::SignedByte => "SB"@,
        StoreLoadMemorySize::SignedHalfword => "SH"@,
    }
}

impl StoreLoadMemorySize {
    pub fn text(&self) -> (r: &'static str)
        ensures
            r@ == size_text(*self),
    {
        match self {
            StoreLoadMemorySize::Byte => "B",
            StoreLoadMemorySize::Halfword => "H",
            StoreLoadMemorySize::Word => "",
            StoreLoadMemorySize::SignedByte => "SB",
            StoreLoadMemorySize::SignedHalfword => "SH",
        }
    }
}

/// The suffix of a block transfer's addressing mode.
pub open spec fn mode_text(m: StoreLoadManyAddressingMode) -> Seq<char> {
    match m {
        StoreLoadManyAddressingMode::IncrementBefore => "IB"@,
        StoreLoadManyAddressingMode::IncrementAfter => "IA"@,
        StoreLoadManyAddressingMode::DecrementBefore => "DB"@,
        StoreLoadManyAddressingMode::DecrementAfter => "DA"@,
    }
}

impl StoreLoadManyAddressingMode {
    pub fn text(&self) -> (r: &'static str)
        ensures
            r@ == mode_text(*self),
    {
        match self {
            StoreLoadManyAddressingMode::IncrementBefore => "IB",
            StoreLoadManyAddressingMode::IncrementAfter => "IA",
            StoreLoadManyAddressingMode::DecrementBefore => "DB",
            StoreLoadManyAddressingMode::DecrementAfter => "DA",
        }
    }
}

/// The letters of the fields of a status register mask, in the order c, x,
/// s, f.
pub open spec fn mask_text(m: MsrFieldMask) -> Seq<char> {
    (if m.control { "c"@ } else { ""@ }) + (if m.extension { "x"@ } else { ""@ }) + (if m.status {
        "s"@
    } else {
        ""@
    }) + (if m.flags { "f"@ } else { ""@ })
}

impl MsrFieldMask {
    pub fn text(&self) -> (r: String)
        ensures
            r@ == mask_text(*self),
    {
        let mut s = String::new();
        proof {
            reveal_strlit("");
        }
        if self.control {
            s.append("c");
        }
        if self.extension {
            s.append("x");
        }
        if self.status {
            s.append("s");
        }
        if self.flags {
            s.append("f");
        }
        assert(s@ =~= mask_text(*self));
        s
    }
}

/// The condition flags as letters: Z, C, N and V where set, else `-`.
pub open spec fn flags_text(f: InstructionFlags) -> Seq<char> {
    (if f.zero_flag { "Z"@ } else { "-"@ }) + (if f.carry_flag { "C"@ } else { "-"@ }) + (if f.negative_flag {
        "N"@
    } else {
        "-"@
    }) + (if f.overflow_flag { "V"@ } else { "-"@ })
}

impl InstructionFlags {
    pub fn text(&self) -> (r: String)
        ensures
            r@ == flags_text(*self),
    {
        let mut s = String::from_str(if self.zero_flag { "Z" } else { "-" });
        s.append(if self.carry_flag { "C" } else { "-" });
        s.append(if self.negative_flag { "N" } else { "-" });
        s.append(if self.overflow_flag { "V" } else { "-" });
        s
    }
}

/// The mnemonic of a shift.
pub open spec fn shift_text(s: ShiftOperator) -> Seq<char> {
    match s {
        ShiftOperator::LeftShift => "LSL"@,
        ShiftOperator::RightShift => "LSR"@,
        ShiftOperator::RotateRight => "ROR"@,
        ShiftOperator::ArithmeticRightShift => "ASR"@,
    }
}

impl ShiftOperator {
    pub fn text(&self) -> (r: &'static str)
        ensures
            r@ == shift_text(*self),
    {
        match self {
            ShiftOperator::LeftShift => "LSL",
            ShiftOperator::RightShift => "LSR",
            ShiftOperator::RotateRight => "ROR",
            ShiftOperator::ArithmeticRightShift => "ASR",
        }
    }
}

/// The mnemonic of a data processing operation.
pub open spec fn operation_text(op: ShifterOperandInstructionOp) -> Seq<char> {
    match op {
        ShifterOperandInstructionOp::Move => "MOV"@,
        ShifterOperandInstructionOp::MoveNegate => "MVN"@,
        ShifterOperandInstructionOp::Compare => "CMP"@,
        ShifterOperandInstructionOp::CompareNegative => "CMN"@,
        ShifterOperandInstructionOp::And => "AND"@,
        ShifterOperandInstructionOp::InclusiveOr => "ORR"@,
        ShifterOperandInstructionOp::ExclusiveOr => "EOR"@,
        ShifterOperandInstructionOp::Add => "ADD"@,
        ShifterOperandInstructionOp::AddWithCarry => "ADC"@,
        ShifterOperandInstructionOp::Subtract => "SUB"@,
        ShifterOperandInstructionOp::Multiplicate => "MUL"@,
        ShifterOperandInstructionOp::ReverseSubtract => "RSB"@,
        ShifterOperandInstructionOp::TestEquals => "TEQ"@,
        ShifterOperandInstructionOp::Test => "TST"@,
        ShifterOperandInstructionOp::BitClear => "BIC"@,
    }
}

impl ShifterOperandInstructionOp {
    pub fn text(&self) -> (r: &'static str)
        ensures
            r@ == operation_text(*self),
    {
        match self {
            ShifterOperandInstructionOp::Move => "MOV",
            ShifterOperandInstructionOp::MoveNegate => "MVN",
            ShifterOperandInstructionOp::Compare => "CMP",
            ShifterOperandInstructionOp::CompareNegative => "CMN",
            ShifterOperandInstructionOp::And => "AND",
            ShifterOperandInstructionOp::InclusiveOr => "ORR",
            ShifterOperandInstructionOp::ExclusiveOr => "EOR",
            ShifterOperandInstructionOp::Add => "ADD",
            ShifterOperandInstructionOp::AddWithCarry => "ADC",
            ShifterOperandInstructionOp::Subtract => "SUB",
            ShifterOperandInstructionOp::Multiplicate => "MUL",
            ShifterOperandInstructionOp::ReverseSubtract => "RSB",
            ShifterOperandInstructionOp::TestEquals => "TEQ",
            ShifterOperandInstructionOp::Test => "TST",
            ShifterOperandInstructionOp::BitClear => "BIC",
        }
    }
}

/// How a register is shown: by its value in hexadecimal after `#` when
/// the context shows values, else by its name; a highlighted register in
/// cyan on a terminal, else after `>`.
pub open spec fn register_text(r: RegisterIndex, ctx: DisplayContext) -> Seq<char> {
    let value = if ctx.use_register_values {
        "#"@ + hex_digits(ctx.register_values.spec_read(r) as nat, 0)
    } else {
        register_name(r)
    };
    if ctx.highlighted_registers.has(r.raw()) {
        if ctx.is_tty {
            cyan_text(value)
        } else {
            ">"@ + value
        }
    } else {
        value
    }
}

impl RegisterIndex {
    /// The register as `ctx` shows it.
    pub fn display(&self, ctx: DisplayContext) -> (r: String)
        requires
            can_show_register(*self, ctx),
        ensures
            r@ == register_text(*self, ctx),
    {
        let value = if ctx.use_register_values {
            assert(ctx.register_values.can_read(*self));
            let mut s = String::from_str("#");
            let digits = hex_string(ctx.register_values.read(*self), 0);
            s.append(digits.as_str());
            s
        } else {
            String::from_str(self.name())
        };
        if ctx.highlighted_registers.contains(*self) {
            if ctx.is_tty {
                cyan(value.as_str())
            } else {
                let mut s = String::from_str(">");
                s.append(value.as_str());
                s
            }
        } else {
            value
        }
    }
}

/// How a shifter operand is shown.
pub open spec fn operand_text(o: ShifterOperand, ctx: DisplayContext) -> Seq<char> {
    match o {
        ShifterOperand::Immediate(immediate, _) => "#"@ + hex_digits(immediate as nat, 0),
        ShifterOperand::Register(register) => register_text(register, ctx),
        ShifterOperand::RegisterImmediate(register, shift_op, immediate) => register_text(register, ctx)
            + ", "@ + shift_text(shift_op) + " #"@ + hex_digits(immediate as nat, 0),
        ShifterOperand::RegisterRegister(register, shift_op, register2) => register_text(register, ctx)
            + ", "@ + shift_text(shift_op) + " "@ + register_text(register2, ctx),
    }
}

impl ShifterOperand {
    /// The operand as `ctx` shows it.
    pub fn display(&self, ctx: DisplayContext) -> (r: String)
        requires
            can_show_operand(*self, ctx),
        ensures
            r@ == operand_text(*self, ctx),
    {
        match *self {
            ShifterOperand::Immediate(immediate, _) => {
                let mut s = String::from_str("#");
                let digits = hex_string(immediate, 0);
                s.append(digits.as_str());
                s
            },
            ShifterOperand::Register(register) => register.display(ctx),
            ShifterOperand::RegisterImmediate(register, shift_op, immediate) => {
                let mut s = register.display(ctx);
                s.append(", ");
                s.append(shift_op.text());
                s.append(" #");
                let digits = hex_string(immediate as u32, 0);
                s.append(digits.as_str());
                s
            },
            ShifterOperand::RegisterRegister(register, shift_op, register2) => {
                let mut s = register.display(ctx);
                s.append(", ");
                s.append(shift_op.text());
                s.append(" ");
                let second = register2.display(ctx);
                s.append(second.as_str());
                s
            },
        }
    }
}

/// The sign of an offset: `-` when it is subtracted.
pub open spec fn sign_text(negate: bool) -> Seq<char> {
    if negate {
        "-"@
    } else {
        "+"@
    }
}

/// How the address of a single transfer is shown: with values, the base
/// value (moved by the offset unless the offset applies afterwards); else
/// the base register and the signed offset, inside or after the brackets;
/// `!` marks a write back.
pub open spec fn address_text(a: StoreLoadMemoryAddress, ctx: DisplayContext) -> Seq<char> {
    let bang = if a.write_back { "!"@ } else { ""@ };
    if ctx.use_register_values {
        let value = ctx.register_values.spec_read(a.register_base);
        if a.is_post_indexing {
            "[#"@ + hex_digits(value as nat, 0) + "]"@ + bang + " "@ + sign_text(a.negate_offset)
                + operand_text(a.offset, ctx)
        } else {
            let moved = crate::instructions::apply_offset(value, a.offset.value_in(ctx.register_values), a.negate_offset);
            "[#"@ + hex_digits(moved as nat, 0) + "]"@ + bang
        }
    } else if a.is_post_indexing {
        "["@ + register_text(a.register_base, ctx) + "]"@ + bang + " "@ + sign_text(a.negate_offset)
            + operand_text(a.offset, ctx)
    } else {
        "["@ + register_text(a.register_base, ctx) + ", "@ + sign_text(a.negate_offset) + operand_text(
            a.offset,
            ctx,
        ) + "]"@ + bang
    }
}

/// Whether the address of `a` can be shown in `ctx`.
pub open spec fn can_show_address(a: StoreLoadMemoryAddress, ctx: DisplayContext) -> bool {
    ctx.use_register_values ==> ctx.register_values.can_read(a.register_base) && a.offset.can_resolve(
        ctx.register_values,
    )
}

impl StoreLoadMemoryAddress {
    /// The address as `ctx` shows it.
    pub fn display(&self, ctx: DisplayContext) -> (r: String)
        requires
            can_show_address(*self, ctx),
        ensures
            r@ == address_text(*self, ctx),
    {
        let bang = if self.write_back { "!" } else { "" };
        let sign = if self.negate_offset { "-" } else { "+" };
        if ctx.use_register_values {
            assert(ctx.register_values.can_read(self.register_base));
            let value = ctx.register_values.read(self.register_base);
            let rhs = self.offset.resolve(&ctx.register_values);
            if self.is_post_indexing {
                let mut s = String::from_str("[#");
                let digits = hex_string(value, 0);
                s.append(digits.as_str());
                s.append("]");
                s.append(bang);
                s.append(" ");
                s.append(sign);
                let offset = self.offset.display(ctx);
                s.append(offset.as_str());
                s
            } else {
                let moved = if self.negate_offset {
                    value.wrapping_sub(rhs)
                } else {
                    value.wrapping_add(rhs)
                };
                assert(moved == crate::instructions::apply_offset(value, rhs, self.negate_offset));
                let mut s = String::from_str("[#");
                let digits = hex_string(moved, 0);
                s.append(digits.as_str());
                s.append("]");
                s.append(bang);
                s
            }
        } else if self.is_post_indexing {
            let mut s = String::from_str("[");
            let base = self.register_base.display(ctx);
            s.append(base.as_str());
            s.append("]");
            s.append(bang);
            s.append(" ");
            s.append(sign);
            let offset = self.offset.display(ctx);
            s.append(offset.as_str());
            s
        } else {
            let mut s = String::from_str("[");
            let base = self.register_base.display(ctx);
            s.append(base.as_str());
            s.append(", ");
            s.append(sign);
            let offset = self.offset.display(ctx);
            s.append(offset.as_str());
            s.append("]");
            s.append(bang);
            s
        }
    }
}

/// The registers of `list` with numbers below `n`, each shown and followed
/// by a comma and a space.
pub open spec fn list_entries_text(list: RegisterList, ctx: DisplayContext, n: nat) -> Seq<char>
    decreases n,
{
    if n == 0 {
        Seq::empty()
    } else {
        let before = list_entries_text(list, ctx, (n - 1) as nat);
        if list.has((n - 1) as nat) && n <= 18 {
            before + register_text(RegisterIndex::from_raw((n - 1) as nat).unwrap(), ctx) + ", "@
        } else {
            before
        }
    }
}

/// How a register list is shown: its registers in braces.
pub open spec fn list_text(list: RegisterList, ctx: DisplayContext) -> Seq<char> {
    "{"@ + list_entries_text(list, ctx, 18) + "}"@
}

impl RegisterList {
    /// The list as `ctx` shows it.
    pub fn display(&self, ctx: DisplayContext) -> (r: String)
        requires
            can_show_list(*self, ctx),
        ensures
            r@ == list_text(*self, ctx),
    {
        let mut s = String::from_str("{");
        let mut i: u32 = 0;
        while i < 18
            invariant
                i <= 18,
                can_show_list(*self, ctx),
                s@ == "{"@ + list_entries_text(*self, ctx, i as nat),
            decreases 18 - i,
        {
            let register = match RegisterIndex::try_from_u32(i) {
                Ok(r) => r,
                Err(()) => RegisterIndex::R0,
            };
            if self.contains(register) {
                let text = register.display(ctx);
                s.append(text.as_str());
                s.append(", ");
            }
            i = i + 1;
        }
        s.append("}");
        s
    }
}

/// How a branch target is shown: an offset in hexadecimal after `#`; a
/// register, with its signed offset unless that is zero.
pub open spec fn target_text(t: BranchTarget, ctx: DisplayContext) -> Seq<char> {
    match t {
        BranchTarget::Offset(offset) => "#"@ + hex_digits(offset as u32 as nat, 0),
        BranchTarget::RegisterWithOffset(register, offset) => if offset == 0 {
            register_text(register, ctx)
        } else {
            register_text(register, ctx) + " "@ + (if offset < 0 { "-"@ } else { "+"@ }) + " #"@
                + hex_digits(offset as u32 as nat, 0)
        },
    }
}

impl BranchTarget {
    /// The target as `ctx` shows it.
    pub fn display(&self, ctx: DisplayContext) -> (r: String)
        requires
            can_show_target(*self, ctx),
        ensures
            r@ == target_text(*self, ctx),
    {
        match *self {
            BranchTarget::Offset(offset) => {
                let mut s = String::from_str("#");
                let digits = hex_string(offset as u32, 0);
                s.append(digits.as_str());
                s
            },
            BranchTarget::RegisterWithOffset(register, offset) => {
                let mut s = register.display(ctx);
                if offset != 0 {
                    s.append(" ");
                    s.append(if offset < 0 { "-" } else { "+" });
                    s.append(" #");
                    let digits = hex_string(offset as u32, 0);
                    s.append(digits.as_str());
                }
                s
            },
        }
    }
}

/// Whether an operation's destination register is shown: every operation but
/// the comparisons and tests writes one.
pub open spec fn shows_destination(op: ShifterOperandInstructionOp) -> bool {
    !(op == ShifterOperandInstructionOp::Compare || op == ShifterOperandInstructionOp::Test || op
        == ShifterOperandInstructionOp::TestEquals)
}

/// How a data-processing operation is shown: its mnemonic with the
/// condition and `S` suffixes, then the destination (never with its value)
/// where the operation writes one, the base where it reads one, and the
/// operand.
pub open spec fn data_processing_text(
    op: ShifterOperandInstructionOp,
    update_flags: bool,
    base: RegisterIndex,
    destination: RegisterIndex,
    value: ShifterOperand,
    condition: Condition,
    ctx: DisplayContext,
) -> Seq<char> {
    operation_text(op) + condition_text(condition) + (if update_flags { "S"@ } else { ""@ }) + " "@ + (
    if shows_destination(op) {
        register_text(destination, DisplayContext { use_register_values: false, ..ctx }) + ", "@
    } else {
        ""@
    }) + (if op.uses_base_spec() {
        register_text(base, ctx) + ", "@
    } else {
        ""@
    }) + operand_text(value, ctx)
}

/// How an operation is shown with the suffix of `condition`.
pub open spec fn op_text(op: InstructionOp, condition: Condition, ctx: DisplayContext) -> Seq<char> {
    match op {
        InstructionOp::Branch { store_return_address_in_link_register, does_switch_mode, target, .. } =>
            "B"@ + (if store_return_address_in_link_register { "L"@ } else { ""@ }) + (if does_switch_mode {
            "X"@
        } else {
            ""@
        }) + condition_text(condition) + " "@ + target_text(target, ctx),
        InstructionOp::StoreOrLoadRegister { is_load, address, register_destination, read_size } =>
            (if is_load { "LDR"@ } else { "STR"@ }) + condition_text(condition) + size_text(read_size) + " "@
            + register_text(
            register_destination,
            if is_load {
                DisplayContext { use_register_values: false, ..ctx }
            } else {
                ctx
            },
        ) + " "@ + address_text(address, ctx),
        InstructionOp::StoreOrLoadRegisters {
            is_load,
            register_base,
            register_base_write_back,
            register_list,
            addressing_mode,
        } => (if is_load { "LDM"@ } else { "STM"@ }) + condition_text(condition) + mode_text(addressing_mode)
            + " "@ + register_text(register_base, ctx) + (if register_base_write_back { "!"@ } else { ""@ })
            + " "@ + list_text(register_list, ctx),
        InstructionOp::Mrs { use_spsr, register_base } => "MRS"@ + condition_text(condition) + " "@
            + register_text(register_base, ctx) + ", "@ + (if use_spsr { "SPSR"@ } else { "CPSR"@ }),
        InstructionOp::Msr { use_spsr, field_mask, operand } => "MSR"@ + condition_text(condition) + " "@
            + (if use_spsr { "SPSR"@ } else { "CPSR"@ }) + "_"@ + mask_text(field_mask) + ", "@
            + operand_text(operand, ctx),
        InstructionOp::ShifterOperandInstruction { op, update_flags, base, destination, value } =>
            data_processing_text(op, update_flags, base, destination, value, condition, ctx),
    }
}

/// Whether `op` can be shown in `ctx`.
pub open spec fn can_show_op(op: InstructionOp, ctx: DisplayContext) -> bool {
    match op {
        InstructionOp::Branch { target, .. } => can_show_target(target, ctx),
        InstructionOp::StoreOrLoadRegister { is_load, address, register_destination, .. } => {
            &&& !is_load ==> can_show_register(register_destination, ctx)
            &&& can_show_address(address, ctx)
        },
        InstructionOp::StoreOrLoadRegisters { register_base, register_list, .. } => can_show_register(
            register_base,
            ctx,
        ) && can_show_list(register_list, ctx),
        InstructionOp::Mrs { register_base, .. } => can_show_register(register_base, ctx),
        InstructionOp::Msr { operand, .. } => can_show_operand(operand, ctx),
        InstructionOp::ShifterOperandInstruction { op, base, value, .. } => {
            &&& op.uses_base_spec() ==> can_show_register(base, ctx)
            &&& can_show_operand(value, ctx)
        },
    }
}

fn display_data_processing(
    op: ShifterOperandInstructionOp,
    update_flags: bool,
    base: RegisterIndex,
    destination: RegisterIndex,
    value: ShifterOperand,
    condition: Condition,
    ctx: DisplayContext,
) -> (r: String)
    requires
        op.uses_base_spec() ==> can_show_register(base, ctx),
        can_show_operand(value, ctx),
    ensures
        r@ == data_processing_text(op, update_flags, base, destination, value, condition, ctx),
{
    let ghost head = operation_text(op) + condition_text(condition) + (if update_flags {
        "S"@
    } else {
        ""@
    }) + " "@;
    let ghost shown_destination = if shows_destination(op) {
        register_text(destination, DisplayContext { use_register_values: false, ..ctx }) + ", "@
    } else {
        ""@
    };
    let ghost shown_base = if op.uses_base_spec() {
        register_text(base, ctx) + ", "@
    } else {
        ""@
    };
    let mut s = String::from_str(op.text());
    proof {
        reveal_strlit("");
    }
    s.append(condition.text());
    s.append(if update_flags { "S" } else { "" });
    s.append(" ");
    assert(s@ =~= head);
    if op.uses_destination() {
        let d = destination.display(ctx.disable_register_values());
        s.append(d.as_str());
        s.append(", ");
    }
    assert(s@ =~= head + shown_destination);
    if op.uses_base() {
        let b = base.display(ctx);
        s.append(b.as_str());
        s.append(", ");
    }
    assert(s@ =~= head + shown_destination + shown_base);
    let v = value.display(ctx);
    s.append(v.as_str());
    s
}

impl InstructionOp {
    /// The operation as `ctx` shows it, with the suffix of `condition`.
    pub fn display(&self, condition: Condition, ctx: DisplayContext) -> (r: String)
        requires
            can_show_op(*self, ctx),
        ensures
            r@ == op_text(*self, condition, ctx),
    {
        match *self {
            InstructionOp::Branch { store_return_address_in_link_register, does_switch_mode, target, .. } => {
                let mut s = String::from_str("B");
                s.append(if store_return_address_in_link_register { "L" } else { "" });
                s.append(if does_switch_mode { "X" } else { "" });
                s.append(condition.text());
                s.append(" ");
                let t = target.display(ctx);
                s.append(t.as_str());
                assert(s@ =~= op_text(*self, condition, ctx));
                s
            },
            InstructionOp::StoreOrLoadRegister { is_load, address, register_destination, read_size } => {
                let mut s = String::from_str(if is_load { "LDR" } else { "STR" });
                s.append(condition.text());
                s.append(read_size.text());
                s.append(" ");
                let shown = if is_load {
                    ctx.disable_register_values()
                } else {
                    ctx
                };
                let d = register_destination.display(shown);
                s.append(d.as_str());
                s.append(" ");
                let a = address.display(ctx);
                s.append(a.as_str());
                assert(s@ =~= op_text(*self, condition, ctx));
                s
            },
            InstructionOp::StoreOrLoadRegisters {
                is_load,
                register_base,
                register_base_write_back,
                register_list,
                addressing_mode,
            } => {
                let mut s = String::from_str(if is_load { "LDM" } else { "STM" });
                s.append(condition.text());
                s.append(addressing_mode.text());
                s.append(" ");
                let b = register_base.display(ctx);
                s.append(b.as_str());
                s.append(if register_base_write_back { "!" } else { "" });
                s.append(" ");
                let l = register_list.display(ctx);
                s.append(l.as_str());
                assert(s@ =~= op_text(*self, condition, ctx));
                s
            },
            InstructionOp::Mrs { use_spsr, register_base } => {
                let mut s = String::from_str("MRS");
                s.append(condition.text());
                s.append(" ");
                let b = register_base.display(ctx);
                s.append(b.as_str());
                s.append(", ");
                s.append(if use_spsr { "SPSR" } else { "CPSR" });
                assert(s@ =~= op_text(*self, condition, ctx));
                s
            },
            InstructionOp::Msr { use_spsr, field_mask, operand } => {
                let mut s = String::from_str("MSR");
                s.append(condition.text());
                s.append(" ");
                s.append(if use_spsr { "SPSR" } else { "CPSR" });
                s.append("_");
                let m = field_mask.text();
                s.append(m.as_str());
                s.append(", ");
                let o = operand.display(ctx);
                s.append(o.as_str());
                assert(s@ =~= op_text(*self, condition, ctx));
                s
            },
            InstructionOp::ShifterOperandInstruction { op, update_flags, base, destination, value } => {
                display_data_processing(op, update_flags, base, destination, value, condition, ctx)
            },
        }
    }
}

/// How an instruction is shown: its operation; one whose condition fails
/// under the flags of the context's registers in dark grey on a terminal,
/// else in parentheses.
pub open spec fn instruction_text(i: Instruction, ctx: DisplayContext) -> Seq<char> {
    let text = op_text(i.op, i.condition, ctx);
    if !condition_holds(i.condition, ctx.register_values.spec_flags()) {
        if ctx.is_tty {
            dark_grey_text(text)
        } else {
            "("@ + text + ")"@
        }
    } else {
        text
    }
}

impl Instruction {
    /// The instruction as `ctx` shows it.
    pub fn display(&self, ctx: DisplayContext) -> (r: String)
        requires
            can_show_op(self.op, ctx),
        ensures
            r@ == instruction_text(*self, ctx),
    {
        let text = self.op.display(self.condition, ctx);
        if !self.condition.can_execute(ctx.register_values.flags()) {
            if ctx.is_tty {
                dark_grey(text.as_str())
            } else {
                let mut s = String::from_str("(");
                s.append(text.as_str());
                s.append(")");
                s
            }
        } else {
            text
        }
    }
}

fn register_shows(r: RegisterIndex, ctx: &DisplayContext) -> (b: bool)
    ensures
        b == can_show_register(r, *ctx),
{
    !ctx.use_register_values || ctx.register_values.can_read_register(r)
}

fn operand_shows(o: ShifterOperand, ctx: &DisplayContext) -> (b: bool)
    ensures
        b == can_show_operand(o, *ctx),
{
    match o {
        ShifterOperand::Immediate(_, _) => true,
        ShifterOperand::Register(r) => register_shows(r, ctx),
        ShifterOperand::RegisterImmediate(r, _, _) => register_shows(r, ctx),
        ShifterOperand::RegisterRegister(r, _, r2) => register_shows(r, ctx) && register_shows(r2, ctx),
    }
}

fn operand_resolves(o: ShifterOperand, regs: &Registers) -> (b: bool)
    ensures
        b == o.can_resolve(*regs),
{
    match o {
        ShifterOperand::Immediate(_, _) => true,
        ShifterOperand::Register(r) => regs.can_read_register(r),
        ShifterOperand::RegisterImmediate(r, _, imm) => regs.can_read_register(r) && imm < 32,
        ShifterOperand::RegisterRegister(r, _, r2) => regs.can_read_register(r) && regs.can_read_register(r2)
            && regs.read(r2) < 32,
    }
}

fn list_shows(list: RegisterList, ctx: &DisplayContext) -> (b: bool)
    ensures
        b == can_show_list(list, *ctx),
{
    let mut i: u32 = 0;
    while i < 18
        invariant
            i <= 18,
            forall|r: RegisterIndex| r.raw() < i && #[trigger] list.has(r.raw()) ==> can_show_register(r, *ctx),
        decreases 18 - i,
    {
        let register = match RegisterIndex::try_from_u32(i) {
            Ok(r) => r,
            Err(()) => RegisterIndex::R0,
        };
        if list.contains(register) && !register_shows(register, ctx) {
            return false;
        }
        assert forall|r: RegisterIndex| r.raw() < i + 1 && #[trigger] list.has(r.raw()) implies can_show_register(r, *ctx) by {
            if r.raw() == i {
                assert(r == register);
            }
        }
        i = i + 1;
    }
    assert forall|r: RegisterIndex| #[trigger] list.has(r.raw()) implies can_show_register(r, *ctx) by {
        assert(r.raw() < 18);
    }
    true
}

impl Instruction {
    /// Whether the instruction can be shown in `ctx`: every register that it
    /// shows by value is readable, and a single transfer's offset resolves.
    pub fn can_display(&self, ctx: DisplayContext) -> (b: bool)
        ensures
            b == can_show_op(self.op, ctx),
    {
        match self.op {
            InstructionOp::Branch { target, .. } => match target {
                BranchTarget::Offset(_) => true,
                BranchTarget::RegisterWithOffset(r, _) => register_shows(r, &ctx),
            },
            InstructionOp::StoreOrLoadRegister { is_load, address, register_destination, .. } => {
                (is_load || register_shows(register_destination, &ctx)) && (!ctx.use_register_values || (
                ctx.register_values.can_read_register(address.register_base) && operand_resolves(
                    address.offset,
                    &ctx.register_values,
                )))
            },
            InstructionOp::StoreOrLoadRegisters { register_base, register_list, .. } => register_shows(
                register_base,
                &ctx,
            ) && list_shows(register_list, &ctx),
            InstructionOp::Mrs { register_base, .. } => register_shows(register_base, &ctx),
            InstructionOp::Msr { operand, .. } => operand_shows(operand, &ctx),
            InstructionOp::ShifterOperandInstruction { op, base, value, .. } => (!op.uses_base()
                || register_shows(base, &ctx)) && operand_shows(value, &ctx),
        }
    }
}

/// Where registers are shown by name, what they hold does not matter.
proof fn lemma_list_by_name(list: RegisterList, a: DisplayContext, b: DisplayContext, n: nat)
    requires
        same_names(a, b),
    ensures
        list_entries_text(list, a, n) == list_entries_text(list, b, n),
    decreases n,
{
    if n > 0 {
        lemma_list_by_name(list, a, b, (n - 1) as nat);
    }
}

/// Whether two contexts show registers by name in the same way.
pub open spec fn same_names(a: DisplayContext, b: DisplayContext) -> bool {
    &&& !a.use_register_values
    &&& !b.use_register_values
    &&& a.highlighted_registers == b.highlighted_registers
    &&& a.is_tty == b.is_tty
}

proof fn lemma_register_by_name(r: RegisterIndex, a: DisplayContext, b: DisplayContext)
    requires
        same_names(a, b),
    ensures
        register_text(r, a) == register_text(r, b),
{
}

proof fn lemma_operand_by_name(o: ShifterOperand, a: DisplayContext, b: DisplayContext)
    requires
        same_names(a, b),
    ensures
        operand_text(o, a) == operand_text(o, b),
{
    match o {
        ShifterOperand::Register(r) => lemma_register_by_name(r, a, b),
        ShifterOperand::RegisterImmediate(r, _, _) => lemma_register_by_name(r, a, b),
        ShifterOperand::RegisterRegister(r, _, r2) => {
            lemma_register_by_name(r, a, b);
            lemma_register_by_name(r2, a, b);
        },
        _ => {},
    }
}

/// An operation shown with registers by name reads the same whatever the
/// registers hold.
pub proof fn lemma_op_text_by_name(op: InstructionOp, condition: Condition, a: DisplayContext, b: DisplayContext)
    requires
        same_names(a, b),
    ensures
        op_text(op, condition, a) == op_text(op, condition, b),
{
    match op {
        InstructionOp::Branch { target, .. } => {
            match target {
                BranchTarget::RegisterWithOffset(r, _) => lemma_register_by_name(r, a, b),
                _ => {},
            }
            assert(target_text(target, a) == target_text(target, b));
        },
        InstructionOp::StoreOrLoadRegister { address, register_destination, .. } => {
            lemma_register_by_name(register_destination, a, b);
            lemma_register_by_name(address.register_base, a, b);
            lemma_operand_by_name(address.offset, a, b);
            assert(address_text(address, a) == address_text(address, b));
        },
        InstructionOp::StoreOrLoadRegisters { register_base, register_list, .. } => {
            lemma_register_by_name(register_base, a, b);
            lemma_list_by_name(register_list, a, b, 18);
        },
        InstructionOp::Mrs { register_base, .. } => {
            lemma_register_by_name(register_base, a, b);
        },
        InstructionOp::Msr { operand, .. } => {
            lemma_operand_by_name(operand, a, b);
        },
        InstructionOp::ShifterOperandInstruction { op, update_flags, base, destination, value } => {
            lemma_register_by_name(base, a, b);
            lemma_register_by_name(destination, DisplayContext { use_register_values: false, ..a }, DisplayContext { use_register_values: false, ..b });
            lemma_operand_by_name(value, a, b);
            assert(data_processing_text(op, update_flags, base, destination, value, condition, a)
                == data_processing_text(op, update_flags, base, destination, value, condition, b));
        },
    }
}

} // verus!
