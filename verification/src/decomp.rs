//! Reading a program image as functions made of basic blocks: entries are
//! decoded instructions or data, blocks end at branches and are split where
//! another block branches into them.
use vstd::prelude::*;
use vstd::string::StringExecFns;

use crate::commands::{decimal_digits, decimal_string_usize};
use crate::display::{condition_text, dark_grey_text, lemma_op_text_by_name, op_text, DisplayContext};
use crate::hex::{hex_digits, hex_string};
use crate::decode::{
    arm_decodable, is_arm_decodable, is_thumb_decodable, spec_decode_arm, spec_decode_thumb, thumb_decodable,
};
use crate::instructions::{BranchTarget, Condition, Instruction, InstructionDecodeError, InstructionOp};
use crate::plugins::debug_symbols::ArmMode;
use crate::memory::{le16, le32};
use crate::plugins::debug_symbols::{first_covering_function, function_name, DebugSymbols, Function};
use crate::comp::source::same_text;
use crate::instructions::condition_holds;
use crate::plugins::debug_symbols::{type_text, Location, Parameter};
use crate::registers::{flags_of, register_name, RegisterIndex, RegisterList, Registers};

verus! {

/// A decoded instruction at `ip` that occupies `size` bytes.
#[derive(Debug, Clone, Copy, PartialEq, Eq, Structural)]
pub struct Instr {
    pub ip: usize,
    pub instr: Instruction,
    pub size: usize,
}

/// An entry of the program: an instruction, or a half word that decodes to
/// none.
#[derive(Debug, Clone, Copy, PartialEq, Eq, Structural)]
pub enum Program {
    Instr(Instr),
    Data(u16),
}

/// The bytes an entry occupies.
pub open spec fn entry_size(entry: Program) -> usize {
    match entry {
        Program::Instr(i) => i.size,
        Program::Data(_) => 2,
    }
}

impl Program {
    pub fn size(&self) -> (r: usize)
        ensures
            r == entry_size(*self),
    {
        match self {
            Program::Instr(i) => i.size,
            Program::Data(_) => 2,
        }
    }
}

/// The byte at `ptr`, or zero past the end.
pub open spec fn byte_or_zero(bytes: Seq<u8>, ptr: int) -> u8 {
    if 0 <= ptr < bytes.len() {
        bytes[ptr]
    } else {
        0
    }
}

/// The little-endian half word at `ptr`, zero-filled past the end.
pub open spec fn half_word_at(bytes: Seq<u8>, ptr: int) -> u16 {
    le16(byte_or_zero(bytes, ptr), byte_or_zero(bytes, ptr + 1))
}

/// The little-endian word at `ptr`, zero-filled past the end.
pub open spec fn word_at(bytes: Seq<u8>, ptr: int) -> u32 {
    le32(
        byte_or_zero(bytes, ptr),
        byte_or_zero(bytes, ptr + 1),
        byte_or_zero(bytes, ptr + 2),
        byte_or_zero(bytes, ptr + 3),
    )
}

fn byte_at(bytes: &[u8], ptr: usize) -> (r: u8)
    ensures
        r == byte_or_zero(bytes@, ptr as int),
{
    if ptr < bytes.len() {
        bytes[ptr]
    } else {
        0
    }
}

/// The little-endian half word at `ptr`; bytes past the end read as zero.
pub fn read_half_word_at(bytes: &[u8], ptr: usize) -> (r: u16)
    requires
        ptr + 1 <= usize::MAX,
    ensures
        r == half_word_at(bytes@, ptr as int),
{
    let lower = byte_at(bytes, ptr);
    let higher = byte_at(bytes, ptr + 1);
    (lower as u16) | ((higher as u16) << 8u16)
}

/// The little-endian word at `ptr`; bytes past the end read as zero.
pub fn read_word_at(bytes: &[u8], ptr: usize) -> (r: u32)
    requires
        ptr + 3 <= usize::MAX,
    ensures
        r == word_at(bytes@, ptr as int),
{
    let b0 = byte_at(bytes, ptr);
    let b1 = byte_at(bytes, ptr + 1);
    let b2 = byte_at(bytes, ptr + 2);
    let b3 = byte_at(bytes, ptr + 3);
    (b0 as u32) | ((b1 as u32) << 8u32) | ((b2 as u32) << 16u32) | ((b3 as u32) << 24u32)
}

/// `base` moved by the signed `offset`, modulo 2^32.
pub open spec fn wrap_signed(base: u32, offset: i32) -> u32 {
    ((base + offset) % 0x1_0000_0000) as u32
}

fn add_signed(base: u32, offset: i32) -> (r: u32)
    ensures
        r == wrap_signed(base, offset),
{
    let t: i64 = base as i64 + offset as i64;
    if t < 0 {
        (t + 0x1_0000_0000i64) as u32
    } else if t >= 0x1_0000_0000i64 {
        (t - 0x1_0000_0000i64) as u32
    } else {
        t as u32
    }
}

/// Where control goes after a block.
#[derive(Debug, Clone, Copy, PartialEq, Eq, Structural)]
pub enum BasicBlockSuccessor {
    Unset,
    One(u32),
    Two(u32, u32),
    OneUnknown,
    TwoUnknown(u32),
}

/// Whether the addresses an entry computes fit in 32 bits.
pub open spec fn entry_fits(entry: Program) -> bool {
    entry matches Program::Instr(i) ==> i.ip + 4 <= u32::MAX && i.ip + i.size <= u32::MAX
}

/// The successor that ends a block after `entry`: a branch to a known
/// address (relative to the instruction pointer, which reads 4 ahead) goes
/// there, or also on to the next entry when its condition may fail; a
/// branch to a register other than the instruction pointer goes somewhere
/// unknown. Other entries do not end a block.
pub open spec fn successor_of(entry: Program) -> Option<BasicBlockSuccessor> {
    match entry {
        Program::Instr(i) => {
            let next = (i.ip + i.size) as u32;
            let always = i.instr.condition == Condition::Always;
            match i.instr.op {
                InstructionOp::Branch { target, .. } => {
                    let known = match target {
                        BranchTarget::Offset(it) => Some(wrap_signed((i.ip + 4) as u32, it)),
                        BranchTarget::RegisterWithOffset(r, it) => if r == RegisterIndex::Ip {
                            Some(wrap_signed((i.ip + 4) as u32, it))
                        } else {
                            None
                        },
                    };
                    Some(
                        match known {
                            Some(t) => if always {
                                BasicBlockSuccessor::One(t)
                            } else {
                                BasicBlockSuccessor::Two(t, next)
                            },
                            None => if always {
                                BasicBlockSuccessor::OneUnknown
                            } else {
                                BasicBlockSuccessor::TwoUnknown(next)
                            },
                        },
                    )
                },
                _ => None,
            }
        },
        Program::Data(_) => None,
    }
}

impl BasicBlockSuccessor {
    /// The successor of a block that `entry` ends, if it ends one.
    pub fn new(entry: &Program) -> (r: Option<BasicBlockSuccessor>)
        requires
            entry_fits(*entry),
        ensures
            r == successor_of(*entry),
    {
        match entry {
            Program::Instr(instr) => {
                let next_instr_ip = instr.ip as u32 + instr.size as u32;
                match instr.instr.op {
                    InstructionOp::Branch { target, .. } => {
                        let always = instr.instr.condition == Condition::Always;
                        let known = match target {
                            BranchTarget::Offset(it) => Some(add_signed(instr.ip as u32 + 4, it)),
                            BranchTarget::RegisterWithOffset(register_index, it) => {
                                if register_index == RegisterIndex::Ip {
                                    Some(add_signed(instr.ip as u32 + 4, it))
                                } else {
                                    None
                                }
                            },
                        };
                        match known {
                            Some(target) => if always {
                                Some(BasicBlockSuccessor::One(target))
                            } else {
                                Some(BasicBlockSuccessor::Two(target, next_instr_ip))
                            },
                            None => if always {
                                Some(BasicBlockSuccessor::OneUnknown)
                            } else {
                                Some(BasicBlockSuccessor::TwoUnknown(next_instr_ip))
                            },
                        }
                    },
                    _ => None,
                }
            },
            Program::Data(_) => None,
        }
    }
}

/// How a successor is written: blocks by `_bb_` and their start in at
/// least four hexadecimal digits, unknown ones as `_bb_xxxx`, none as `?`.
pub open spec fn successor_text(s: BasicBlockSuccessor) -> Seq<char> {
    match s {
        BasicBlockSuccessor::Unset => "?"@,
        BasicBlockSuccessor::One(i) => "_bb_"@ + hex_digits(i as nat, 4),
        BasicBlockSuccessor::Two(a, b) => "_bb_"@ + hex_digits(a as nat, 4) + " or _bb_"@ + hex_digits(
            b as nat,
            4,
        ),
        BasicBlockSuccessor::OneUnknown => "_bb_xxxx"@,
        BasicBlockSuccessor::TwoUnknown(i) => "_bb_xxxx or _bb_"@ + hex_digits(i as nat, 4),
    }
}

impl BasicBlockSuccessor {
    /// The successor as it is written.
    pub fn text(&self) -> (r: String)
        ensures
            r@ == successor_text(*self),
    {
        match *self {
            BasicBlockSuccessor::Unset => String::from_str("?"),
            BasicBlockSuccessor::One(i) => {
                let mut s = String::from_str("_bb_");
                let digits = hex_string(i, 4);
                s.append(digits.as_str());
                s
            },
            BasicBlockSuccessor::Two(a, b) => {
                let mut s = String::from_str("_bb_");
                let first = hex_string(a, 4);
                s.append(first.as_str());
                s.append(" or _bb_");
                let second = hex_string(b, 4);
                s.append(second.as_str());
                s
            },
            BasicBlockSuccessor::OneUnknown => String::from_str("_bb_xxxx"),
            BasicBlockSuccessor::TwoUnknown(i) => {
                let mut s = String::from_str("_bb_xxxx or _bb_");
                let digits = hex_string(i, 4);
                s.append(digits.as_str());
                s
            },
        }
    }
}

/// The bytes the first `k` entries occupy.
pub open spec fn prefix_size(entries: Seq<Program>, k: int) -> int
    decreases k,
{
    if k <= 0 {
        0
    } else {
        prefix_size(entries, k - 1) + entry_size(entries[k - 1])
    }
}

/// How many entries lie before `target` in a block starting at `start`: the
/// first count whose entries reach up to `target` or past it.
pub open spec fn entries_before(entries: Seq<Program>, start: u32, target: u32, k: nat) -> nat
    decreases entries.len() - k,
{
    if k >= entries.len() || start + prefix_size(entries, k as int) >= target {
        k
    } else {
        entries_before(entries, start, target, k + 1)
    }
}

proof fn lemma_prefix_size_monotonic(entries: Seq<Program>, j: int, k: int)
    requires
        0 <= j <= k,
    ensures
        prefix_size(entries, j) <= prefix_size(entries, k),
    decreases k - j,
{
    if j < k {
        lemma_prefix_size_monotonic(entries, j, k - 1);
    }
}

/// A run of entries from `start` up to `end` and where control goes next.
#[derive(Debug)]
pub struct BasicBlock {
    pub start: u32,
    pub end: u32,
    pub instructions: Vec<Program>,
    pub successor: BasicBlockSuccessor,
}

impl BasicBlock {
    /// Whether `target` lies in the block.
    pub open spec fn covers(&self, target: u32) -> bool {
        self.start <= target < self.end
    }

    /// Whether the entries reach to the block's end and their addresses
    /// fit in 32 bits.
    pub open spec fn spans(&self) -> bool {
        &&& self.end <= self.start + prefix_size(self.instructions@, self.instructions@.len() as int)
        &&& self.start + prefix_size(self.instructions@, self.instructions@.len() as int) <= u32::MAX
    }

    pub fn contains(&self, target: u32) -> (r: bool)
        ensures
            r == self.covers(target),
    {
        self.start <= target && target < self.end
    }

    /// Splits the block at `target`: the block keeps the entries before it,
    /// ends there and goes on to it; the returned block holds the rest and
    /// starts at `target`. The returned block takes the end and successor
    /// that the block has after the split, so it ends where it starts.
    pub fn split(&mut self, target: u32) -> (r: BasicBlock)
        requires
            old(self).covers(target),
            old(self).spans(),
        ensures
            ({
                let k = entries_before(old(self).instructions@, old(self).start, target, 0) as int;
                &&& final(self).start == old(self).start
                &&& final(self).end == target
                &&& final(self).instructions@ == old(self).instructions@.subrange(0, k)
                &&& final(self).successor == BasicBlockSuccessor::One(target)
                &&& r.start == target
                &&& r.end == target
                &&& r.instructions@ == old(self).instructions@.subrange(k, old(self).instructions@.len() as int)
                &&& r.successor == BasicBlockSuccessor::One(target)
            }),
            final(self).spans(),
    {
        let ghost entries = self.instructions@;
        let ghost total = prefix_size(entries, entries.len() as int);
        self.end = target;
        self.successor = BasicBlockSuccessor::One(target);
        let mut split_index: usize = 0;
        let mut ip: u32 = self.start;
        while ip < target
            invariant
                self.instructions@ == entries,
                self.start == old(self).start,
                old(self).start + total <= u32::MAX,
                total == prefix_size(entries, entries.len() as int),
                target <= old(self).start + total,
                split_index <= entries.len(),
                ip == old(self).start + prefix_size(entries, split_index as int),
                entries_before(entries, old(self).start, target, 0) == entries_before(
                    entries,
                    old(self).start,
                    target,
                    split_index as nat,
                ),
            decreases entries.len() - split_index,
        {
            assert(split_index < self.instructions.len());
            proof {
                lemma_prefix_size_monotonic(entries, split_index + 1, entries.len() as int);
            }
            ip = ip + self.instructions[split_index].size() as u32;
            split_index = split_index + 1;
        }
        proof {
            lemma_prefix_size_monotonic(entries, split_index as int, entries.len() as int);
        }
        let rest = self.instructions.split_off(split_index);
        proof {
            lemma_prefix_sizes_of_prefix(entries, split_index as int);
        }
        BasicBlock { start: target, end: self.end, instructions: rest, successor: self.successor }
    }
}

proof fn lemma_prefix_sizes_of_prefix(entries: Seq<Program>, k: int)
    requires
        0 <= k <= entries.len(),
    ensures
        prefix_size(entries.subrange(0, k), k) == prefix_size(entries, k),
    decreases k,
{
    if k > 0 {
        lemma_prefix_sizes_of_prefix(entries.subrange(0, k - 1), k - 1);
        assert(entries.subrange(0, k).subrange(0, k - 1) =~= entries.subrange(0, k - 1));
        lemma_prefix_sizes_of_prefix(entries, k - 1);
        lemma_prefix_of_subrange(entries, k, k - 1);
    }
}

proof fn lemma_prefix_of_subrange(entries: Seq<Program>, n: int, k: int)
    requires
        0 <= k <= n <= entries.len(),
    ensures
        prefix_size(entries.subrange(0, n), k) == prefix_size(entries, k),
    decreases k,
{
    if k > 0 {
        lemma_prefix_of_subrange(entries, n, k - 1);
    }
}

/// A block as contracts see it.
pub struct BlockView {
    pub start: u32,
    pub end: u32,
    pub instructions: Seq<Program>,
    pub successor: BasicBlockSuccessor,
}

impl View for BasicBlock {
    type V = BlockView;

    open spec fn view(&self) -> BlockView {
        BlockView {
            start: self.start,
            end: self.end,
            instructions: self.instructions@,
            successor: self.successor,
        }
    }
}

/// The blocks of a sequence of blocks, as contracts see them.
pub open spec fn block_views(blocks: Seq<BasicBlock>) -> Seq<BlockView> {
    blocks.map_values(|b: BasicBlock| b@)
}

/// A block at `at` with no entries and no successor yet.
pub open spec fn empty_block(at: u32) -> BlockView {
    BlockView { start: at, end: at, instructions: Seq::empty(), successor: BasicBlockSuccessor::Unset }
}

/// The blocks after the first `n` entries starting at `start`, with the
/// address after them: each entry joins the last block; one that ends a
/// block sets its successor and end, and a new empty block follows.
pub open spec fn gathered(entries: Seq<Program>, start: u32, n: nat) -> (Seq<BlockView>, int)
    decreases n,
{
    if n == 0 {
        (seq![empty_block(start)], start as int)
    } else {
        let (blocks, ip) = gathered(entries, start, (n - 1) as nat);
        let entry = entries[n - 1];
        let last = blocks.last();
        let grown = BlockView { instructions: last.instructions.push(entry), ..last };
        let next = ip + entry_size(entry);
        match successor_of(entry) {
            Some(successor) => (
                blocks.drop_last().push(BlockView { successor, end: next as u32, ..grown }).push(
                    empty_block(next as u32),
                ),
                next,
            ),
            None => (blocks.drop_last().push(grown), next),
        }
    }
}

/// The blocks of the entries: those gathered, without a trailing empty
/// block, the last one going on past the entries when nothing ended it.
pub open spec fn finished_blocks(entries: Seq<Program>, start: u32) -> Seq<BlockView> {
    let (blocks, ip) = gathered(entries, start, entries.len());
    let kept = if blocks.last().instructions.len() == 0 {
        blocks.drop_last()
    } else {
        blocks
    };
    if kept.last().successor == BasicBlockSuccessor::Unset {
        kept.drop_last().push(
            BlockView { successor: BasicBlockSuccessor::One(ip as u32), end: ip as u32, ..kept.last() },
        )
    } else {
        kept
    }
}

/// Whether the entries from `start` fit in 32-bit addresses.
pub open spec fn entries_fit(entries: Seq<Program>, start: u32) -> bool {
    &&& start + prefix_size(entries, entries.len() as int) <= u32::MAX
    &&& forall|i: int| 0 <= i < entries.len() ==> entry_fits(#[trigger] entries[i])
}

proof fn lemma_gathered(entries: Seq<Program>, start: u32, n: nat)
    requires
        n <= entries.len(),
    ensures
        gathered(entries, start, n).0.len() >= 1,
        gathered(entries, start, n).1 == start + prefix_size(entries, n as int),
        n > 0 ==> gathered(entries, start, n).0.len() >= 2 || gathered(
            entries,
            start,
            n,
        ).0.last().instructions.len() > 0,
    decreases n,
{
    if n > 0 {
        lemma_gathered(entries, start, (n - 1) as nat);
    }
}

/// Gathers the entries into blocks.
fn gather_blocks(start: u32, entries: Vec<Program>) -> (r: Vec<BasicBlock>)
    requires
        entries@.len() > 0,
        entries_fit(entries@, start),
    ensures
        block_views(r@) == finished_blocks(entries@, start),
{
    let ghost all = entries@;
    let mut blocks: Vec<BasicBlock> = Vec::new();
    blocks.push(
        BasicBlock {
            start,
            end: start,
            instructions: Vec::new(),
            successor: BasicBlockSuccessor::Unset,
        },
    );
    let mut ip: u32 = start;
    let mut k: usize = 0;
    proof {
        assert(block_views(blocks@) =~= gathered(all, start, 0).0);
    }
    while k < entries.len()
        invariant
            entries@ == all,
            entries_fit(all, start),
            k <= all.len(),
            block_views(blocks@) == gathered(all, start, k as nat).0,
            ip == gathered(all, start, k as nat).1,
        decreases all.len() - k,
    {
        proof {
            lemma_gathered(all, start, k as nat);
            lemma_gathered(all, start, (k + 1) as nat);
            lemma_prefix_size_monotonic(all, k + 1, all.len() as int);
            assert(entry_fits(all[k as int]));
        }
        let entry = entries[k];
        let size = entry.size() as u32;
        let successor = BasicBlockSuccessor::new(&entry);
        let mut last = blocks.pop().unwrap();
        last.instructions.push(entry);
        ip = ip + size;
        match successor {
            Some(successor) => {
                last.successor = successor;
                last.end = ip;
                blocks.push(last);
                blocks.push(
                    BasicBlock {
                        start: ip,
                        end: ip,
                        instructions: Vec::new(),
                        successor: BasicBlockSuccessor::Unset,
                    },
                );
            },
            None => {
                blocks.push(last);
            },
        }
        proof {
            assert(block_views(blocks@) =~= gathered(all, start, (k + 1) as nat).0);
        }
        k = k + 1;
    }
    proof {
        lemma_gathered(all, start, all.len());
    }
    let count = blocks.len();
    if blocks[count - 1].instructions.len() == 0 {
        blocks.pop();
    }
    let count = blocks.len();
    if blocks[count - 1].successor == BasicBlockSuccessor::Unset {
        let mut last = blocks.pop().unwrap();
        last.successor = BasicBlockSuccessor::One(ip);
        last.end = ip;
        blocks.push(last);
    }
    proof {
        assert(block_views(blocks@) =~= finished_blocks(all, start));
    }
    blocks
}

/// Whether a block can be split: it covers no address, or its entries
/// reach to its end within 32-bit addresses.
pub open spec fn splittable(b: BlockView) -> bool {
    b.end <= b.start || (b.end <= b.start + prefix_size(b.instructions, b.instructions.len() as int)
        && b.start + prefix_size(b.instructions, b.instructions.len() as int) <= u32::MAX)
}

proof fn lemma_prefix_size_push(entries: Seq<Program>, entry: Program, k: int)
    requires
        0 <= k <= entries.len(),
    ensures
        prefix_size(entries.push(entry), k) == prefix_size(entries, k),
    decreases k,
{
    if k > 0 {
        lemma_prefix_size_push(entries, entry, k - 1);
    }
}

proof fn lemma_gathered_blocks_splittable(entries: Seq<Program>, start: u32, n: nat)
    requires
        n <= entries.len(),
        entries_fit(entries, start),
    ensures
        ({
            let (blocks, ip) = gathered(entries, start, n);
            &&& forall|i: int| 0 <= i < blocks.len() ==> #[trigger] blocks[i].start + prefix_size(
                blocks[i].instructions,
                blocks[i].instructions.len() as int,
            ) <= ip
            &&& forall|i: int| 0 <= i < blocks.len() - 1 ==> #[trigger] blocks[i].end == blocks[i].start
                + prefix_size(blocks[i].instructions, blocks[i].instructions.len() as int)
            &&& blocks.last().start + prefix_size(blocks.last().instructions, blocks.last().instructions.len() as int) == ip
            &&& blocks.last().end <= blocks.last().start + prefix_size(blocks.last().instructions, blocks.last().instructions.len() as int)
            &&& ip <= start + prefix_size(entries, entries.len() as int)
        }),
    decreases n,
{
    lemma_gathered(entries, start, n);
    lemma_prefix_size_monotonic(entries, n as int, entries.len() as int);
    if n > 0 {
        lemma_gathered_blocks_splittable(entries, start, (n - 1) as nat);
        lemma_gathered(entries, start, (n - 1) as nat);
        let (blocks, ip) = gathered(entries, start, (n - 1) as nat);
        let last = blocks.last();
        lemma_prefix_size_push(last.instructions, entries[n - 1], last.instructions.len() as int);
    }
}

proof fn lemma_finished_blocks_splittable(entries: Seq<Program>, start: u32)
    requires
        entries.len() > 0,
        entries_fit(entries, start),
    ensures
        forall|i: int| 0 <= i < finished_blocks(entries, start).len() ==> splittable(
            #[trigger] finished_blocks(entries, start)[i],
        ),
        finished_blocks(entries, start).len() >= 1,
{
    lemma_gathered(entries, start, entries.len());
    lemma_gathered_blocks_splittable(entries, start, entries.len());
}

/// The known addresses a successor goes to.
pub open spec fn successor_targets(s: BasicBlockSuccessor) -> Seq<u32> {
    match s {
        BasicBlockSuccessor::Unset => Seq::empty(),
        BasicBlockSuccessor::One(a) => seq![a],
        BasicBlockSuccessor::Two(a, b) => seq![a, b],
        BasicBlockSuccessor::OneUnknown => Seq::empty(),
        BasicBlockSuccessor::TwoUnknown(a) => seq![a],
    }
}

/// Whether some block covers `t`.
pub open spec fn some_block_covers(blocks: Seq<BlockView>, t: u32) -> bool {
    exists|i: int| 0 <= i < blocks.len() && (#[trigger] blocks[i]).start <= t < blocks[i].end
}

/// Whether some block starts at `t`.
pub open spec fn some_block_starts_at(blocks: Seq<BlockView>, t: u32) -> bool {
    exists|i: int| 0 <= i < blocks.len() && (#[trigger] blocks[i]).start == t
}

/// The targets of the successors of the first `n` blocks, in order, that
/// lie inside a block without starting one.
pub open spec fn split_targets(blocks: Seq<BlockView>, n: nat) -> Seq<u32>
    decreases n,
{
    if n == 0 {
        Seq::empty()
    } else {
        split_targets(blocks, (n - 1) as nat) + inner_targets(
            blocks,
            successor_targets(blocks[n - 1].successor),
        )
    }
}

/// The addresses of `ts` that lie inside a block without starting one.
pub open spec fn inner_targets(blocks: Seq<BlockView>, ts: Seq<u32>) -> Seq<u32>
    decreases ts.len(),
{
    if ts.len() == 0 {
        Seq::empty()
    } else {
        let t = ts.last();
        inner_targets(blocks, ts.drop_last()) + if some_block_covers(blocks, t) && !some_block_starts_at(
            blocks,
            t,
        ) {
            seq![t]
        } else {
            Seq::empty()
        }
    }
}

/// The first block that covers `t`.
pub open spec fn first_covering(blocks: Seq<BlockView>, t: u32, from: int) -> Option<int>
    decreases blocks.len() - from,
{
    if from < 0 || from >= blocks.len() {
        None
    } else if blocks[from].start <= t < blocks[from].end {
        Some(from)
    } else {
        first_covering(blocks, t, from + 1)
    }
}

/// The two halves of `b` split at `t`.
pub open spec fn split_view(b: BlockView, t: u32) -> (BlockView, BlockView) {
    let k = entries_before(b.instructions, b.start, t, 0) as int;
    (
        BlockView {
            start: b.start,
            end: t,
            instructions: b.instructions.subrange(0, k),
            successor: BasicBlockSuccessor::One(t),
        },
        BlockView {
            start: t,
            end: t,
            instructions: b.instructions.subrange(k, b.instructions.len() as int),
            successor: BasicBlockSuccessor::One(t),
        },
    )
}

/// The blocks after splitting at the targets, the last target first: the
/// first block covering a target keeps the part before it, and the rest
/// is appended.
pub open spec fn apply_splits(blocks: Seq<BlockView>, targets: Seq<u32>) -> Seq<BlockView>
    decreases targets.len(),
{
    if targets.len() == 0 {
        blocks
    } else {
        let t = targets.last();
        match first_covering(blocks, t, 0) {
            None => apply_splits(blocks, targets.drop_last()),
            Some(i) => {
                let (kept, rest) = split_view(blocks[i], t);
                apply_splits(blocks.update(i, kept).push(rest), targets.drop_last())
            },
        }
    }
}

/// The index at which `b` goes into blocks sorted by start: after every
/// block that starts no later.
pub open spec fn insertion_index(sorted: Seq<BlockView>, b: BlockView, from: int) -> int
    decreases sorted.len() - from,
{
    if from < 0 || from >= sorted.len() {
        sorted.len() as int
    } else if sorted[from].start > b.start {
        from
    } else {
        insertion_index(sorted, b, from + 1)
    }
}

/// The blocks ordered by start; blocks with the same start keep their
/// order.
pub open spec fn sorted_by_start(blocks: Seq<BlockView>) -> Seq<BlockView>
    decreases blocks.len(),
{
    if blocks.len() == 0 {
        Seq::empty()
    } else {
        let sorted = sorted_by_start(blocks.drop_last());
        sorted.insert(insertion_index(sorted, blocks.last(), 0), blocks.last())
    }
}

/// The blocks split where a successor of one lies inside another, then
/// ordered by start.
pub open spec fn split_blocks(blocks: Seq<BlockView>) -> Seq<BlockView> {
    sorted_by_start(apply_splits(blocks, split_targets(blocks, blocks.len())))
}

fn block_covering_exists(blocks: &Vec<BasicBlock>, t: u32) -> (r: bool)
    ensures
        r == some_block_covers(block_views(blocks@), t),
{
    let ghost views = block_views(blocks@);
    let mut i: usize = 0;
    while i < blocks.len()
        invariant
            i <= blocks@.len(),
            views == block_views(blocks@),
            forall|j: int| 0 <= j < i ==> !(views[j].start <= t && t < views[j].end),
        decreases blocks@.len() - i,
    {
        if blocks[i].contains(t) {
            assert(views[i as int].start <= t < views[i as int].end);
            return true;
        }
        i = i + 1;
    }
    false
}

fn block_starting_exists(blocks: &Vec<BasicBlock>, t: u32) -> (r: bool)
    ensures
        r == some_block_starts_at(block_views(blocks@), t),
{
    let ghost views = block_views(blocks@);
    let mut i: usize = 0;
    while i < blocks.len()
        invariant
            i <= blocks@.len(),
            views == block_views(blocks@),
            forall|j: int| 0 <= j < i ==> views[j].start != t,
        decreases blocks@.len() - i,
    {
        if blocks[i].start == t {
            assert(views[i as int].start == t);
            return true;
        }
        i = i + 1;
    }
    false
}

fn push_if_inner(targets: &mut Vec<u32>, blocks: &Vec<BasicBlock>, t: u32)
    ensures
        final(targets)@ == old(targets)@ + inner_targets(block_views(blocks@), seq![t]),
{
    let ghost views = block_views(blocks@);
    proof {
        assert(seq![t].drop_last() =~= Seq::<u32>::empty());
        assert(seq![t].last() == t);
        assert(inner_targets(views, Seq::<u32>::empty()) =~= Seq::<u32>::empty());
        assert(inner_targets(views, seq![t]) =~= if some_block_covers(views, t) && !some_block_starts_at(views, t) {
            seq![t]
        } else {
            Seq::<u32>::empty()
        });
    }
    if block_covering_exists(blocks, t) && !block_starting_exists(blocks, t) {
        targets.push(t);
    }
    assert(targets@ =~= old(targets)@ + inner_targets(block_views(blocks@), seq![t]));
}

proof fn lemma_inner_targets_concat(blocks: Seq<BlockView>, a: Seq<u32>, b: Seq<u32>)
    ensures
        inner_targets(blocks, a + b) == inner_targets(blocks, a) + inner_targets(blocks, b),
    decreases b.len(),
{
    if b.len() == 0 {
        assert(a + b =~= a);
        assert(inner_targets(blocks, a) + inner_targets(blocks, b) =~= inner_targets(blocks, a));
    } else {
        assert((a + b).drop_last() =~= a + b.drop_last());
        lemma_inner_targets_concat(blocks, a, b.drop_last());
    }
}

fn collect_split_targets(blocks: &Vec<BasicBlock>) -> (r: Vec<u32>)
    ensures
        r@ == split_targets(block_views(blocks@), blocks@.len() as nat),
{
    let ghost views = block_views(blocks@);
    let mut targets: Vec<u32> = Vec::new();
    let mut i: usize = 0;
    while i < blocks.len()
        invariant
            i <= blocks@.len(),
            views == block_views(blocks@),
            targets@ == split_targets(views, i as nat),
        decreases blocks@.len() - i,
    {
        let successor = blocks[i].successor;
        assert(successor == views[i as int].successor);
        match successor {
            BasicBlockSuccessor::One(a) => {
                push_if_inner(&mut targets, blocks, a);
            },
            BasicBlockSuccessor::Two(a, b) => {
                push_if_inner(&mut targets, blocks, a);
                push_if_inner(&mut targets, blocks, b);
                proof {
                    lemma_inner_targets_concat(views, seq![a], seq![b]);
                    assert(seq![a] + seq![b] =~= seq![a, b]);
                }
            },
            BasicBlockSuccessor::TwoUnknown(a) => {
                push_if_inner(&mut targets, blocks, a);
            },
            _ => {
                assert(inner_targets(views, Seq::<u32>::empty()) =~= Seq::<u32>::empty());
            },
        }
        assert(targets@ =~= split_targets(views, (i + 1) as nat));
        i = i + 1;
    }
    targets
}

proof fn lemma_first_covering(blocks: Seq<BlockView>, t: u32, from: int)
    ensures
        first_covering(blocks, t, from) matches Some(i) ==> 0 <= from <= i < blocks.len()
            && blocks[i].start <= t < blocks[i].end,
    decreases blocks.len() - from,
{
    if 0 <= from < blocks.len() && !(blocks[from].start <= t < blocks[from].end) {
        lemma_first_covering(blocks, t, from + 1);
    }
}

fn find_covering(blocks: &Vec<BasicBlock>, t: u32) -> (r: Option<usize>)
    ensures
        match r {
            Some(i) => first_covering(block_views(blocks@), t, 0) == Some(i as int) && i < blocks@.len(),
            None => first_covering(block_views(blocks@), t, 0) is None,
        },
{
    let ghost views = block_views(blocks@);
    let mut i: usize = 0;
    while i < blocks.len()
        invariant
            i <= blocks@.len(),
            views == block_views(blocks@),
            first_covering(views, t, 0) == first_covering(views, t, i as int),
        decreases blocks@.len() - i,
    {
        if blocks[i].contains(t) {
            return Some(i);
        }
        i = i + 1;
    }
    None
}

/// Splits the blocks where a successor of one lies inside another, then
/// orders them by start.
pub fn split_if_necessary(basic_blocks: &mut Vec<BasicBlock>)
    requires
        forall|i: int| 0 <= i < old(basic_blocks)@.len() ==> splittable(#[trigger] old(basic_blocks)@[i]@),
    ensures
        block_views(final(basic_blocks)@) == split_blocks(block_views(old(basic_blocks)@)),
{
    let ghost goal = apply_splits(
        block_views(basic_blocks@),
        split_targets(block_views(basic_blocks@), basic_blocks@.len() as nat),
    );
    let mut targets = collect_split_targets(basic_blocks);
    while targets.len() > 0
        invariant
            apply_splits(block_views(basic_blocks@), targets@) == goal,
            forall|i: int| 0 <= i < basic_blocks@.len() ==> splittable(#[trigger] basic_blocks@[i]@),
        decreases targets@.len(),
    {
        let ghost views = block_views(basic_blocks@);
        let target = targets.pop().unwrap();
        match find_covering(basic_blocks, target) {
            None => {},
            Some(i) => {
                proof {
                    lemma_first_covering(views, target, 0);
                    assert(views[i as int] == basic_blocks@[i as int]@);
                }
                let mut block = basic_blocks.remove(i);
                assert(block@ == views[i as int]);
                assert(splittable(block@));
                let rest = block.split(target);
                let ghost kept = block@;
                basic_blocks.insert(i, block);
                basic_blocks.push(rest);
                proof {
                    assert(block_views(basic_blocks@) =~= views.update(i as int, kept).push(rest@));
                    assert forall|j: int| 0 <= j < basic_blocks@.len() implies splittable(
                        #[trigger] basic_blocks@[j]@,
                    ) by {
                        if j != i && j < basic_blocks@.len() - 1 {
                            assert(basic_blocks@[j]@ == views[j]);
                        }
                    }
                }
            },
        }
    }
    let sorted = sort_by_start(basic_blocks);
    *basic_blocks = sorted;
}

proof fn lemma_sorted_prefix(views: Seq<BlockView>, k: int)
    requires
        0 <= k < views.len(),
    ensures
        sorted_by_start(views.subrange(0, k + 1)) == ({
            let sorted = sorted_by_start(views.subrange(0, k));
            sorted.insert(insertion_index(sorted, views[k], 0), views[k])
        }),
{
    assert(views.subrange(0, k + 1).drop_last() =~= views.subrange(0, k));
}

/// The blocks ordered by start, keeping the order of blocks with the same
/// start.
fn sort_by_start(blocks: &mut Vec<BasicBlock>) -> (r: Vec<BasicBlock>)
    ensures
        block_views(r@) == sorted_by_start(block_views(old(blocks)@)),
{
    let ghost views = block_views(blocks@);
    let count = blocks.len();
    let mut sorted: Vec<BasicBlock> = Vec::new();
    let mut k: usize = 0;
    proof {
        assert(views.len() == count);
        assert(views.subrange(0, 0) =~= Seq::<BlockView>::empty());
        assert(block_views(sorted@) =~= sorted_by_start(views.subrange(0, 0)));
    }
    while blocks.len() > 0
        invariant
            k <= views.len(),
            views.len() <= usize::MAX,
            block_views(blocks@) == views.subrange(k as int, views.len() as int),
            block_views(sorted@) == sorted_by_start(views.subrange(0, k as int)),
        decreases views.len() - k,
    {
        let ghost remaining = block_views(blocks@);
        proof {
            assert(remaining.len() == blocks@.len());
            assert(remaining[0] == blocks@[0]@);
            assert(remaining[0] == views[k as int]);
        }
        let block = blocks.remove(0);
        proof {
            assert(block_views(blocks@) =~= remaining.subrange(1, remaining.len() as int));
        }
        assert(block@ == views[k as int]);
        let ghost before = block_views(sorted@);
        let mut j: usize = 0;
        while j < sorted.len() && sorted[j].start <= block.start
            invariant
                j <= sorted@.len(),
                block_views(sorted@) == before,
                insertion_index(before, block@, 0) == insertion_index(before, block@, j as int),
            decreases sorted@.len() - j,
        {
            j = j + 1;
        }
        sorted.insert(j, block);
        proof {
            lemma_sorted_prefix(views, k as int);
            assert(block_views(sorted@) =~= before.insert(j as int, views[k as int]));
            assert(block_views(blocks@) =~= views.subrange(k + 1, views.len() as int));
        }
        k = k + 1;
    }
    assert(views.subrange(0, views.len() as int) =~= views);
    sorted
}

/// A function of the program: where it starts and ends, its name, its
/// entries (or blocks), whether debug symbols describe it, and which of
/// their functions does, whose parameters it has.
pub struct DecompiledFunction<T> {
    pub start: u32,
    pub name: String,
    pub program: Vec<T>,
    pub is_mapped: bool,
    pub end: u32,
    pub symbol: Option<usize>,
}

/// Whether a function's entries can be gathered into blocks.
pub open spec fn can_convert(f: &DecompiledFunction<Program>) -> bool {
    f.program@.len() > 0 && entries_fit(f.program@, f.start)
}

/// The function with its entries gathered into blocks, split where a
/// successor lies inside a block, and ordered by start.
pub fn convert_to_basic_block(f: DecompiledFunction<Program>) -> (r: DecompiledFunction<BasicBlock>)
    requires
        can_convert(&f),
    ensures
        r.start == f.start,
        r.name@ == f.name@,
        r.is_mapped == f.is_mapped,
        r.end == f.end,
        r.symbol == f.symbol,
        block_views(r.program@) == split_blocks(finished_blocks(f.program@, f.start)),
{
    let ghost entries = f.program@;
    let mut basic_blocks = gather_blocks(f.start, f.program);
    proof {
        lemma_finished_blocks_splittable(entries, f.start);
        assert forall|i: int| 0 <= i < basic_blocks@.len() implies splittable(#[trigger] basic_blocks@[i]@) by {
            assert(basic_blocks@[i]@ == block_views(basic_blocks@)[i]);
        }
    }
    split_if_necessary(&mut basic_blocks);
    DecompiledFunction {
        start: f.start,
        name: f.name,
        program: basic_blocks,
        is_mapped: f.is_mapped,
        end: f.end,
        symbol: f.symbol,
    }
}

/// Every function with its entries gathered into blocks.
pub fn convert_to_basic_blocks(functions: Vec<DecompiledFunction<Program>>) -> (r: Vec<DecompiledFunction<BasicBlock>>)
    requires
        forall|i: int| 0 <= i < functions@.len() ==> can_convert(&#[trigger] functions@[i]),
    ensures
        r@.len() == functions@.len(),
        forall|i: int|
            0 <= i < r@.len() ==> {
                let f = #[trigger] functions@[i];
                let g = r@[i];
                &&& g.start == f.start
                &&& g.name@ == f.name@
                &&& g.is_mapped == f.is_mapped
                &&& g.end == f.end
                &&& g.symbol == f.symbol
                &&& block_views(g.program@) == split_blocks(finished_blocks(f.program@, f.start))
            },
{
    let ghost all = functions@;
    let count = functions.len();
    let mut functions = functions;
    let mut result: Vec<DecompiledFunction<BasicBlock>> = Vec::new();
    let mut k: usize = 0;
    while functions.len() > 0
        invariant
            k <= all.len(),
            all.len() == count,
            functions@ == all.subrange(k as int, all.len() as int),
            forall|i: int| 0 <= i < all.len() ==> can_convert(&#[trigger] all[i]),
            result@.len() == k,
            forall|i: int|
                0 <= i < k ==> {
                    let f = #[trigger] all[i];
                    let g = result@[i];
                    &&& g.start == f.start
                    &&& g.name@ == f.name@
                    &&& g.is_mapped == f.is_mapped
                    &&& g.end == f.end
                    &&& g.symbol == f.symbol
                    &&& block_views(g.program@) == split_blocks(finished_blocks(f.program@, f.start))
                },
        decreases all.len() - k,
    {
        let f = functions.remove(0);
        assert(f == all[k as int]);
        let g = convert_to_basic_block(f);
        result.push(g);
        k = k + 1;
    }
    result
}

/// A function of entries as contracts see it.
pub struct FunctionView {
    pub start: u32,
    pub name: Seq<char>,
    pub program: Seq<Program>,
    pub is_mapped: bool,
    pub end: u32,
    pub symbol: Option<usize>,
}

pub open spec fn function_view(f: DecompiledFunction<Program>) -> FunctionView {
    FunctionView {
        start: f.start,
        name: f.name@,
        program: f.program@,
        is_mapped: f.is_mapped,
        end: f.end,
        symbol: f.symbol,
    }
}

pub open spec fn function_views(fs: Seq<DecompiledFunction<Program>>) -> Seq<FunctionView> {
    fs.map_values(|f: DecompiledFunction<Program>| function_view(f))
}

/// A function that no symbol describes, starting with `entry` at `ip`: it
/// is named after its address and ends after the entry.
pub open spec fn unknown_function(ip: usize, entry: Program) -> FunctionView {
    FunctionView {
        start: ip as u32,
        name: "unknown_"@ + hex_digits(ip as nat, 4),
        program: seq![entry],
        is_mapped: false,
        end: (ip + entry_size(entry)) as u32,
        symbol: None,
    }
}

/// The function that symbol `k` describes, starting with `entry`.
pub open spec fn mapped_function(symbols: Seq<Function>, k: int, entry: Program, end: u32) -> FunctionView {
    FunctionView {
        start: symbols[k].start,
        name: function_name(symbols[k]),
        program: seq![entry],
        is_mapped: true,
        end,
        symbol: Some(k as usize),
    }
}

/// `f` with `entry` appended.
pub open spec fn with_entry(f: FunctionView, entry: Program) -> FunctionView {
    FunctionView { program: f.program.push(entry), ..f }
}

/// The functions completed after the first `n` entries, and the one being
/// filled. An entry that a symbol covers starts the symbol's function
/// unless the current one has the same name; one that no symbol covers
/// joins the current function while it is unmapped or the entry lies
/// before its end, and starts an unknown function otherwise.
pub open spec fn grouped(symbols: Seq<Function>, program: Seq<(usize, Program)>, n: nat) -> (
    Seq<FunctionView>,
    Option<FunctionView>,
)
    decreases n,
{
    if n == 0 {
        (Seq::empty(), None)
    } else {
        let (done, current) = grouped(symbols, program, (n - 1) as nat);
        let (ip, entry) = program[n - 1];
        match (first_covering_function(symbols, ip as u32, 0), current) {
            (Some(k), Some(c)) => if function_name(symbols[k]) != c.name {
                (done.push(c), Some(mapped_function(symbols, k, entry, symbols[k].end)))
            } else {
                (done, Some(with_entry(c, entry)))
            },
            (Some(k), None) => (done, Some(mapped_function(symbols, k, entry, symbols[k].start))),
            (None, Some(c)) => if c.is_mapped && ip >= c.end {
                (done.push(c), Some(unknown_function(ip, entry)))
            } else {
                (done, Some(with_entry(c, entry)))
            },
            (None, None) => (done, Some(unknown_function(ip, entry))),
        }
    }
}

fn unknown_at(ip: usize, entry: Program) -> (r: DecompiledFunction<Program>)
    requires
        ip + entry_size(entry) <= u32::MAX,
    ensures
        function_view(r) == unknown_function(ip, entry),
{
    let mut name = String::from_str("unknown_");
    let digits = hex_string(ip as u32, 4);
    name.append(digits.as_str());
    let mut program: Vec<Program> = Vec::new();
    program.push(entry);
    assert(program@ =~= seq![entry]);
    DecompiledFunction {
        start: ip as u32,
        name,
        program,
        is_mapped: false,
        end: (ip + entry.size()) as u32,
        symbol: None,
    }
}

fn mapped_at(symbols: &DebugSymbols, k: usize, entry: Program, end: u32) -> (r: DecompiledFunction<Program>)
    requires
        k < symbols.functions@.len(),
    ensures
        function_view(r) == mapped_function(symbols.functions@, k as int, entry, end),
{
    let f = &symbols.functions[k];
    let mut program: Vec<Program> = Vec::new();
    program.push(entry);
    assert(program@ =~= seq![entry]);
    DecompiledFunction {
        start: f.start,
        name: f.name(),
        program,
        is_mapped: true,
        end,
        symbol: Some(k),
    }
}

/// Groups the entries of a program, ordered by address, into functions
/// along the debug symbols. The function still being filled when the
/// entries run out is not returned.
pub fn load_functions(program: &Vec<(usize, Program)>, symbols: &DebugSymbols) -> (r: Vec<DecompiledFunction<Program>>)
    requires
        forall|i: int| 0 <= i < program@.len() ==> (#[trigger] program@[i]).0 + entry_size(program@[i].1) <= u32::MAX,
    ensures
        function_views(r@) == grouped(symbols.functions@, program@, program@.len()).0,
{
    let mut functions: Vec<DecompiledFunction<Program>> = Vec::new();
    let mut current: Option<DecompiledFunction<Program>> = None;
    let mut n: usize = 0;
    proof {
        assert(function_views(functions@) =~= Seq::<FunctionView>::empty());
    }
    while n < program.len()
        invariant
            n <= program@.len(),
            forall|i: int| 0 <= i < program@.len() ==> (#[trigger] program@[i]).0 + entry_size(program@[i].1) <= u32::MAX,
            function_views(functions@) == grouped(symbols.functions@, program@, n as nat).0,
            (match current {
                Some(c) => Some(function_view(c)),
                None => None,
            }) == grouped(symbols.functions@, program@, n as nat).1,
        decreases program@.len() - n,
    {
        let (ip, entry) = program[n];
        assert((ip, entry) == program@[n as int]);
        let found = symbols.find_function_index_for_address(ip as u32);
        let ghost before = function_views(functions@);
        match found {
            Some(k) => match current {
                Some(mut cur) => {
                    let name = symbols.functions[k].name();
                    if !same_text(name.as_str(), cur.name.as_str()) {
                        functions.push(cur);
                        current = Some(mapped_at(symbols, k, entry, symbols.functions[k].end));
                    } else {
                        cur.program.push(entry);
                        current = Some(cur);
                    }
                },
                None => {
                    current = Some(mapped_at(symbols, k, entry, symbols.functions[k].start));
                },
            },
            None => match current {
                Some(mut cur) => {
                    if cur.is_mapped && ip >= cur.end as usize {
                        functions.push(cur);
                        current = Some(unknown_at(ip, entry));
                    } else {
                        cur.program.push(entry);
                        current = Some(cur);
                    }
                },
                None => {
                    current = Some(unknown_at(ip, entry));
                },
            },
        }
        proof {
            assert(function_views(functions@) =~= grouped(symbols.functions@, program@, (n + 1) as nat).0);
        }
        n = n + 1;
    }
    functions
}

/// The bytes a decoded instruction takes: four in ARM code; in Thumb code
/// two, or the size a branch was decoded with (a long branch takes two
/// half words).
pub open spec fn decoded_size(instruction: Instruction, from_thumb: bool) -> usize {
    if from_thumb {
        match instruction.op {
            InstructionOp::Branch { instruction_size, .. } => instruction_size,
            _ => 2,
        }
    } else {
        4
    }
}

/// The decoding chosen at `ip`, whether it is Thumb code, and whether the
/// code before the next ambiguous place counts as Thumb. Where both
/// decodings succeed, a symbol starting there decides by its mode, else
/// the kind of the code before; elsewhere the ARM decoding is taken when
/// it succeeds, and whether the Thumb one succeeded is remembered.
pub open spec fn chosen_decoding(bytes: Seq<u8>, symbols: Seq<Function>, ip: int, prev_thumb: bool) -> (
    Result<Instruction, InstructionDecodeError>,
    bool,
    bool,
) {
    let arm = spec_decode_arm(word_at(bytes, ip));
    let thumb = spec_decode_thumb(half_word_at(bytes, ip), half_word_at(bytes, ip + 2));
    if arm is Ok && thumb is Ok {
        match first_covering_function(symbols, ip as u32, 0) {
            Some(k) => if symbols[k].start == ip as u32 {
                if symbols[k].mode == ArmMode::Arm {
                    (arm, false, prev_thumb)
                } else {
                    (thumb, true, prev_thumb)
                }
            } else if prev_thumb {
                (thumb, true, prev_thumb)
            } else {
                (arm, false, prev_thumb)
            },
            None => if prev_thumb {
                (thumb, true, prev_thumb)
            } else {
                (arm, false, prev_thumb)
            },
        }
    } else if arm is Ok {
        (arm, false, thumb is Ok)
    } else {
        (thumb, true, thumb is Ok)
    }
}

/// The entry at `ip`, the address after it, and the kind of the code
/// before the next one: an instruction, or the half word as data where
/// the chosen decoding fails.
pub open spec fn entry_at(bytes: Seq<u8>, symbols: Seq<Function>, ip: int, prev_thumb: bool) -> (
    Program,
    int,
    bool,
) {
    let (chosen, from_thumb, next_thumb) = chosen_decoding(bytes, symbols, ip, prev_thumb);
    match chosen {
        Ok(instruction) => {
            let size = decoded_size(instruction, from_thumb);
            (Program::Instr(Instr { ip: ip as usize, instr: instruction, size }), ip + size, next_thumb)
        },
        Err(_) => (Program::Data(half_word_at(bytes, ip)), ip + 2, next_thumb),
    }
}

/// The entries of `bytes` from `ip` on, each with its address.
pub open spec fn loaded(bytes: Seq<u8>, symbols: Seq<Function>, ip: int, prev_thumb: bool) -> Seq<(usize, Program)>
    decreases bytes.len() - ip,
{
    if ip < 0 || ip >= bytes.len() {
        Seq::empty()
    } else {
        let (entry, next, next_thumb) = entry_at(bytes, symbols, ip, prev_thumb);
        if next >= bytes.len() {
            seq![(ip as usize, entry)]
        } else {
            seq![(ip as usize, entry)] + loaded(bytes, symbols, next, next_thumb)
        }
    }
}

/// Whether both decoders accept every place that loading `bytes` from `ip`
/// reaches, and the addresses stay within `usize`.
pub open spec fn loadable(bytes: Seq<u8>, symbols: Seq<Function>, ip: int, prev_thumb: bool) -> bool
    decreases bytes.len() - ip,
{
    if ip < 0 || ip >= bytes.len() {
        true
    } else {
        let (entry, next, next_thumb) = entry_at(bytes, symbols, ip, prev_thumb);
        &&& arm_decodable(word_at(bytes, ip))
        &&& thumb_decodable(half_word_at(bytes, ip), half_word_at(bytes, ip + 2))
        &&& (next >= bytes.len() || loadable(bytes, symbols, next, next_thumb))
    }
}

/// The entry at `ip`, the address after it, and the kind of code before the
/// next one.
fn decode_entry(bytes: &[u8], symbols: &DebugSymbols, ip: usize, is_prev_thumb: bool) -> (r: (
    Program,
    usize,
    bool,
))
    requires
        ip < bytes@.len(),
        bytes@.len() + 4 <= usize::MAX,
        arm_decodable(word_at(bytes@, ip as int)),
        thumb_decodable(half_word_at(bytes@, ip as int), half_word_at(bytes@, ip + 2)),
    ensures
        ({
            let step = entry_at(bytes@, symbols.functions@, ip as int, is_prev_thumb);
            r.0 == step.0 && r.1 == step.1 && r.2 == step.2
        }),
{
    let half_word = read_half_word_at(bytes, ip);
    let next_half_word = read_half_word_at(bytes, ip + 2);
    let arm = Instruction::decode_arm(read_word_at(bytes, ip));
    let thumb = Instruction::decode_thumb(half_word, next_half_word);
    let mut is_prev_thumb = is_prev_thumb;
    let (chosen, from_thumb) = if arm.is_ok() && thumb.is_ok() {
        let starts_here = match symbols.find_function_index_for_address(ip as u32) {
            Some(k) => if symbols.functions[k].start == ip as u32 {
                Some(symbols.functions[k].mode)
            } else {
                None
            },
            None => None,
        };
        match starts_here {
            Some(ArmMode::Arm) => (arm, false),
            Some(_) => (thumb, true),
            None => if is_prev_thumb {
                (thumb, true)
            } else {
                (arm, false)
            },
        }
    } else {
        is_prev_thumb = thumb.is_ok();
        if arm.is_ok() {
            (arm, false)
        } else {
            (thumb, true)
        }
    };
    match chosen {
        Ok(instr) => {
            let size = if from_thumb {
                match instr.op {
                    InstructionOp::Branch { instruction_size, .. } => instruction_size,
                    _ => 2,
                }
            } else {
                4
            };
            (Program::Instr(Instr { ip, instr, size }), ip + size, is_prev_thumb)
        },
        Err(_) => (Program::Data(half_word), ip + 2, is_prev_thumb),
    }
}

/// Decodes the program image `bytes` entry by entry, from address 0.
pub fn load_program(bytes: &[u8], symbols: &DebugSymbols) -> (r: Vec<(usize, Program)>)
    requires
        bytes@.len() + 4 <= usize::MAX,
        loadable(bytes@, symbols.functions@, 0, false),
    ensures
        r@ == loaded(bytes@, symbols.functions@, 0, false),
{
    let mut program: Vec<(usize, Program)> = Vec::new();
    let mut ip: usize = 0;
    let mut is_prev_thumb = false;
    let length = bytes.len();
    while ip < length
        invariant
            length == bytes@.len(),
            length + 4 <= usize::MAX,
            loadable(bytes@, symbols.functions@, ip as int, is_prev_thumb),
            program@ + loaded(bytes@, symbols.functions@, ip as int, is_prev_thumb) == loaded(
                bytes@,
                symbols.functions@,
                0,
                false,
            ),
        decreases usize::MAX - ip,
    {
        let ghost rest = loaded(bytes@, symbols.functions@, ip as int, is_prev_thumb);
        let (entry, next, next_thumb) = decode_entry(bytes, symbols, ip, is_prev_thumb);
        program.push((ip, entry));
        assert(next > ip);
        proof {
            let after = loaded(bytes@, symbols.functions@, next as int, next_thumb);
            if next >= length {
                assert(after =~= Seq::<(usize, Program)>::empty());
                assert(rest =~= seq![(ip, entry)]);
            } else {
                assert(rest =~= seq![(ip, entry)] + after);
            }
            assert(program@ + after =~= loaded(bytes@, symbols.functions@, 0, false));
        }
        ip = next;
        is_prev_thumb = next_thumb;
    }
    assert(program@ + Seq::<(usize, Program)>::empty() =~= program@);
    program
}

/// `s` with every occurrence of `pattern` taken out, scanning from the
/// left.
pub open spec fn without(s: Seq<char>, pattern: Seq<char>) -> Seq<char>
    decreases s.len(),
{
    if s.len() == 0 || pattern.len() == 0 {
        s
    } else if pattern.len() <= s.len() && s.subrange(0, pattern.len() as int) == pattern {
        without(s.subrange(pattern.len() as int, s.len() as int), pattern)
    } else {
        seq![s[0]] + without(s.subrange(1, s.len() as int), pattern)
    }
}

fn remove_all(s: &str, pattern: &str) -> (r: String)
    requires
        pattern@.len() > 0,
    ensures
        r@ == without(s@, pattern@),
{
    let len = s.unicode_len();
    let plen = pattern.unicode_len();
    let mut out = String::new();
    let mut i: usize = 0;
    proof {
        assert(s@.subrange(0, len as int) =~= s@);
        assert(out@ + without(s@, pattern@) =~= without(s@, pattern@));
    }
    while i < len
        invariant
            len == s@.len(),
            plen == pattern@.len(),
            plen > 0,
            i <= len,
            out@ + without(s@.subrange(i as int, len as int), pattern@) == without(s@, pattern@),
        decreases len - i,
    {
        let ghost rest = s@.subrange(i as int, len as int);
        if plen <= len - i && same_text(s.substring_char(i, i + plen), pattern) {
            proof {
                assert(rest.subrange(0, plen as int) =~= s@.subrange(i as int, i + plen));
                assert(rest.subrange(plen as int, rest.len() as int) =~= s@.subrange(i + plen, len as int));
            }
            i = i + plen;
        } else {
            out.append(s.substring_char(i, i + 1));
            proof {
                if plen <= len - i {
                    assert(rest.subrange(0, plen as int) =~= s@.subrange(i as int, i + plen));
                }
                assert(rest.subrange(1, rest.len() as int) =~= s@.subrange(i + 1, len as int));
                assert(s@.subrange(i as int, i + 1) =~= seq![rest[0]]);
            }
            i = i + 1;
        }
    }
    proof {
        assert(s@.subrange(len as int, len as int) =~= Seq::<char>::empty());
    }
    assert(out@ + Seq::<char>::empty() =~= out@);
    out
}

/// The context an instruction is written in on its own: registers by name,
/// none highlighted, for a terminal.
pub open spec fn plain_context() -> DisplayContext {
    DisplayContext {
        highlighted_registers: RegisterList(0),
        is_tty: true,
        register_values: arbitrary(),
        use_register_values: false,
    }
}

/// An instruction written on its own, with the color codes around one
/// whose condition fails under clear flags taken out (their escape
/// characters stay).
pub open spec fn plain_instruction_text(i: Instruction) -> Seq<char> {
    let text = op_text(i.op, i.condition, plain_context());
    let shown = if !condition_holds(i.condition, flags_of(0xd3)) {
        dark_grey_text(text)
    } else {
        text
    };
    without(without(shown, "[m"@), "[38;5;8m"@)
}

/// The last function of the symbols that starts at `address`.
pub open spec fn last_starting_at(symbols: Seq<Function>, address: u32, n: int) -> Option<int>
    decreases n,
{
    if n <= 0 {
        None
    } else if symbols[n - 1].start == address {
        Some(n - 1)
    } else {
        last_starting_at(symbols, address, n - 1)
    }
}

/// A signed number in decimal.
pub open spec fn signed_decimal(v: i32) -> Seq<char> {
    if v < 0 {
        "-"@ + decimal_digits((-v) as nat)
    } else {
        decimal_digits(v as nat)
    }
}

/// How a branch to `ip + 4` moved by `offset` is written: by the name of a
/// function starting there, else by the offset in hexadecimal and decimal
/// and the target.
pub open spec fn branch_text(i: Instr, link: bool, offset: i32, symbols: Seq<Function>) -> Seq<char> {
    let target = wrap_signed((i.ip + 4) as u32, offset);
    let head = condition_text(i.instr.condition) + "B"@ + (if link { "L"@ } else { ""@ });
    match last_starting_at(symbols, target, symbols.len() as int) {
        Some(k) => head + " @"@ + function_name(symbols[k]),
        None => head + " 0x"@ + hex_digits(offset as u32 as nat, 4) + "("@ + signed_decimal(offset) + "d) >["@
            + hex_digits(target as nat, 4) + "]"@,
    }
}

/// How an instruction entry is written: a branch relative to the
/// instruction pointer by its target, anything else as the instruction.
pub open spec fn instr_text(i: Instr, symbols: Seq<Function>) -> Seq<char> {
    match i.instr.op {
        InstructionOp::Branch { store_return_address_in_link_register, target, .. } => match target {
            BranchTarget::Offset(it) => branch_text(i, store_return_address_in_link_register, it, symbols),
            BranchTarget::RegisterWithOffset(r, it) => if r == RegisterIndex::Ip {
                branch_text(i, store_return_address_in_link_register, it, symbols)
            } else {
                plain_instruction_text(i.instr)
            },
        },
        _ => plain_instruction_text(i.instr),
    }
}

fn signed_decimal_string(v: i32) -> (r: String)
    ensures
        r@ == signed_decimal(v),
{
    if v < 0 {
        let mut s = String::from_str("-");
        let magnitude = (0i64 - v as i64) as usize;
        let digits = decimal_string_usize(magnitude);
        s.append(digits.as_str());
        s
    } else {
        decimal_string_usize(v as usize)
    }
}

fn last_function_starting_at(symbols: &DebugSymbols, address: u32) -> (r: Option<usize>)
    ensures
        match r {
            Some(k) => last_starting_at(symbols.functions@, address, symbols.functions@.len() as int) == Some(k as int) && k < symbols.functions@.len(),
            None => last_starting_at(symbols.functions@, address, symbols.functions@.len() as int) is None,
        },
{
    let mut n = symbols.functions.len();
    while n > 0
        invariant
            n <= symbols.functions@.len(),
            last_starting_at(symbols.functions@, address, symbols.functions@.len() as int) == last_starting_at(
                symbols.functions@,
                address,
                n as int,
            ),
        decreases n,
    {
        if symbols.functions[n - 1].start == address {
            return Some(n - 1);
        }
        n = n - 1;
    }
    None
}

fn write_branch(i: &Instr, link: bool, offset: i32, symbols: &DebugSymbols) -> (r: String)
    requires
        i.ip + 4 <= u32::MAX,
    ensures
        r@ == branch_text(*i, link, offset, symbols.functions@),
{
    proof {
        reveal_strlit("");
    }
    let target = add_signed(i.ip as u32 + 4, offset);
    let mut s = String::from_str(i.instr.condition.text());
    s.append("B");
    s.append(if link { "L" } else { "" });
    match last_function_starting_at(symbols, target) {
        Some(k) => {
            s.append(" @");
            let name = symbols.functions[k].name();
            s.append(name.as_str());
        },
        None => {
            s.append(" 0x");
            let digits = hex_string(offset as u32, 4);
            s.append(digits.as_str());
            s.append("(");
            let decimal = signed_decimal_string(offset);
            s.append(decimal.as_str());
            s.append("d) >[");
            let digits = hex_string(target, 4);
            s.append(digits.as_str());
            s.append("]");
        },
    }
    s
}

impl Instr {
    /// The instruction as a listing shows it, naming the functions that
    /// branches go to.
    pub fn text(&self, symbols: &DebugSymbols) -> (r: String)
        requires
            self.ip + 4 <= u32::MAX,
        ensures
            r@ == instr_text(*self, symbols.functions@),
    {
        match self.instr.op {
            InstructionOp::Branch { store_return_address_in_link_register, target, .. } => match target {
                BranchTarget::Offset(it) => {
                    return write_branch(self, store_return_address_in_link_register, it, symbols);
                },
                BranchTarget::RegisterWithOffset(r, it) => {
                    if r == RegisterIndex::Ip {
                        return write_branch(self, store_return_address_in_link_register, it, symbols);
                    }
                },
            },
            _ => {},
        }
        let ctx = DisplayContext {
            highlighted_registers: RegisterList::empty(),
            is_tty: true,
            register_values: Registers::new(),
            use_register_values: false,
        };
        let shown = self.instr.display(ctx);
        proof {
            lemma_op_text_by_name(self.instr.op, self.instr.condition, ctx, plain_context());
            reveal_strlit("[m");
            reveal_strlit("[38;5;8m");
        }
        let once = remove_all(shown.as_str(), "[m");
        remove_all(once.as_str(), "[38;5;8m")
    }
}

/// Where a parameter is passed, as a header writes it.
pub open spec fn location_text(l: Location) -> Seq<char> {
    match l {
        Location::Register(r) => register_name(r),
        Location::Memory(r, offset) => "["@ + register_name(r) + " + "@ + signed_decimal(offset) + "]"@,
    }
}

/// A parameter as a header writes it: its name, where it is passed and its
/// type, followed by a comma.
pub open spec fn parameter_text(p: Parameter) -> Seq<char> {
    p.name@ + " ["@ + location_text(p.location) + "]: "@ + type_text(p.type_) + ", "@
}

/// The parameters as a header writes them, each followed by a comma.
pub open spec fn parameters_text(ps: Seq<Parameter>) -> Seq<char>
    decreases ps.len(),
{
    if ps.len() == 0 {
        Seq::empty()
    } else {
        parameters_text(ps.drop_last()) + parameter_text(ps.last())
    }
}

/// The header of a function: its name, its parameters and its return
/// values, as its symbol gives them.
pub open spec fn header_text<T>(f: &DecompiledFunction<T>, symbols: Seq<Function>) -> Seq<char> {
    let (params, results) = match f.symbol {
        Some(k) => if k < symbols.len() {
            (symbols[k as int].params@, symbols[k as int].return_params@)
        } else {
            (Seq::empty(), Seq::empty())
        },
        None => (Seq::empty(), Seq::empty()),
    };
    "fn "@ + f.name@ + "("@ + parameters_text(params) + ") -> "@ + parameters_text(results) + ":"@
}

fn write_parameter(out: &mut String, p: &Parameter)
    ensures
        final(out)@ == old(out)@ + parameter_text(*p),
{
    proof {
        reveal_strlit(" [");
        reveal_strlit("]: ");
        reveal_strlit(", ");
        reveal_strlit("[");
        reveal_strlit(" + ");
        reveal_strlit("]");
    }
    out.append(p.name.as_str());
    out.append(" [");
    match &p.location {
        Location::Register(r) => {
            out.append(r.name());
        },
        Location::Memory(r, offset) => {
            out.append("[");
            out.append(r.name());
            out.append(" + ");
            let decimal = signed_decimal_string(*offset);
            out.append(decimal.as_str());
            out.append("]");
        },
    }
    out.append("]: ");
    let written = p.type_.to_string();
    out.append(written.as_str());
    out.append(", ");
}

fn write_parameters(out: &mut String, ps: &Vec<Parameter>)
    ensures
        final(out)@ == old(out)@ + parameters_text(ps@),
{
    let mut i: usize = 0;
    while i < ps.len()
        invariant
            i <= ps@.len(),
            out@ == old(out)@ + parameters_text(ps@.subrange(0, i as int)),
        decreases ps@.len() - i,
    {
        write_parameter(out, &ps[i]);
        proof {
            assert(ps@.subrange(0, i + 1).drop_last() =~= ps@.subrange(0, i as int));
        }
        i = i + 1;
    }
    assert(ps@.subrange(0, ps@.len() as int) =~= ps@);
}

impl<T> DecompiledFunction<T> {
    /// The function's header.
    pub fn header(&self, symbols: &DebugSymbols) -> (r: String)
        ensures
            r@ == header_text(self, symbols.functions@),
    {
        proof {
            reveal_strlit("fn ");
            reveal_strlit("(");
            reveal_strlit(") -> ");
            reveal_strlit(":");
        }
        let mut s = String::from_str("fn ");
        s.append(self.name.as_str());
        s.append("(");
        let empty: Vec<Parameter> = Vec::new();
        let (params, results) = match self.symbol {
            Some(k) => if k < symbols.functions.len() {
                (&symbols.functions[k].params, &symbols.functions[k].return_params)
            } else {
                (&empty, &empty)
            },
            None => (&empty, &empty),
        };
        proof {
            assert(empty@ =~= Seq::<Parameter>::empty());
        }
        write_parameters(&mut s, params);
        s.append(") -> ");
        write_parameters(&mut s, results);
        s.append(":");
        s
    }
}

/// Whether both decoders accept every place that loading `bytes` reaches.
pub fn can_load_program(bytes: &[u8], symbols: &DebugSymbols) -> (r: bool)
    requires
        bytes@.len() + 4 <= usize::MAX,
    ensures
        r == loadable(bytes@, symbols.functions@, 0, false),
{
    let mut ip: usize = 0;
    let mut is_prev_thumb = false;
    let length = bytes.len();
    while ip < length
        invariant
            length == bytes@.len(),
            length + 4 <= usize::MAX,
            loadable(bytes@, symbols.functions@, ip as int, is_prev_thumb) == loadable(
                bytes@,
                symbols.functions@,
                0,
                false,
            ),
        decreases usize::MAX - ip,
    {
        let word = read_word_at(bytes, ip);
        let half_word = read_half_word_at(bytes, ip);
        let next_half_word = read_half_word_at(bytes, ip + 2);
        if !is_arm_decodable(word) || !is_thumb_decodable(half_word, next_half_word) {
            return false;
        }
        let (_, next, next_thumb) = decode_entry(bytes, symbols, ip, is_prev_thumb);
        ip = next;
        is_prev_thumb = next_thumb;
    }
    true
}

/// The line of an entry at `ip` in a listing: its address, then the
/// instruction, or the data half word in hexadecimal.
pub open spec fn entry_line(e: Program, ip: nat, symbols: Seq<Function>) -> Seq<char> {
    "    ["@ + hex_digits(ip, 4) + "] "@ + match e {
        Program::Instr(i) => instr_text(i, symbols),
        Program::Data(d) => "0x"@ + hex_digits(d as nat, 2),
    } + "\n"@
}

/// The lines of entries, the first at `ip` and each after the one before.
pub open spec fn entries_listing(es: Seq<Program>, ip: nat, symbols: Seq<Function>) -> Seq<char>
    decreases es.len(),
{
    if es.len() == 0 {
        Seq::empty()
    } else {
        entry_line(es[0], ip, symbols) + entries_listing(
            es.subrange(1, es.len() as int),
            (ip + entry_size(es[0])) as nat,
            symbols,
        )
    }
}

/// The bytes of the entries of the blocks.
pub open spec fn blocks_size(bs: Seq<BlockView>) -> nat
    decreases bs.len(),
{
    if bs.len() == 0 {
        0
    } else {
        prefix_size(bs[0].instructions, bs[0].instructions.len() as int) as nat + blocks_size(
            bs.subrange(1, bs.len() as int),
        )
    }
}

/// The lines of blocks: each block's label and successor, then its
/// entries; addresses count on from `ip` across the blocks.
pub open spec fn blocks_listing(bs: Seq<BlockView>, ip: nat, symbols: Seq<Function>) -> Seq<char>
    decreases bs.len(),
{
    if bs.len() == 0 {
        Seq::empty()
    } else {
        let b = bs[0];
        "  _bb_"@ + hex_digits(b.start as nat, 4) + " -> "@ + successor_text(b.successor) + "\n"@
            + entries_listing(b.instructions, ip, symbols) + blocks_listing(
            bs.subrange(1, bs.len() as int),
            ip + prefix_size(b.instructions, b.instructions.len() as int) as nat,
            symbols,
        )
    }
}

/// A function's listing: its header, then its blocks.
pub open spec fn function_listing(f: &DecompiledFunction<BasicBlock>, symbols: Seq<Function>) -> Seq<char> {
    header_text(f, symbols) + "\n"@ + blocks_listing(block_views(f.program@), f.start as nat, symbols)
}

/// Whether every instruction entry of the blocks sits low enough for its
/// branch targets to be computed.
pub open spec fn entries_addressable(bs: Seq<BlockView>) -> bool {
    forall|i: int, j: int|
        0 <= i < bs.len() && 0 <= j < bs[i].instructions.len() ==> (#[trigger] bs[i].instructions[j]
            matches Program::Instr(e) ==> e.ip + 4 <= u32::MAX)
}

proof fn lemma_prefix_size_front(es: Seq<Program>)
    requires
        es.len() > 0,
    ensures
        prefix_size(es, es.len() as int) == entry_size(es[0]) + prefix_size(
            es.subrange(1, es.len() as int),
            es.len() - 1,
        ),
    decreases es.len(),
{
    let n = es.len() as int;
    let sub = es.subrange(1, n);
    assert(prefix_size(es, n) == prefix_size(es, n - 1) + entry_size(es[n - 1]));
    if n > 1 {
        let dl = es.drop_last();
        lemma_prefix_size_front(dl);
        assert(dl.subrange(1, n - 1) =~= sub.drop_last());
        assert(dl[0] == es[0]);
        lemma_prefix_agrees(es, dl, n - 1);
        lemma_prefix_agrees(sub, sub.drop_last(), n - 2);
        assert(prefix_size(sub, n - 1) == prefix_size(sub, n - 2) + entry_size(sub[n - 2]));
        assert(sub[n - 2] == es[n - 1]);
    } else {
        assert(prefix_size(es, 0) == 0);
        assert(prefix_size(sub, 0) == 0);
    }
}

proof fn lemma_prefix_agrees(a: Seq<Program>, b: Seq<Program>, k: int)
    requires
        0 <= k <= a.len(),
        k <= b.len(),
        forall|i: int| 0 <= i < k ==> a[i] == b[i],
    ensures
        prefix_size(a, k) == prefix_size(b, k),
    decreases k,
{
    if k > 0 {
        lemma_prefix_agrees(a, b, k - 1);
    }
}

fn write_entries(out: &mut String, es: &Vec<Program>, start: usize, symbols: &DebugSymbols) -> (next: usize)
    requires
        start + prefix_size(es@, es@.len() as int) <= u32::MAX,
        forall|j: int| 0 <= j < es@.len() ==> (#[trigger] es@[j] matches Program::Instr(e) ==> e.ip + 4 <= u32::MAX),
    ensures
        final(out)@ == old(out)@ + entries_listing(es@, start as nat, symbols.functions@),
        next == start + prefix_size(es@, es@.len() as int),
{
    proof {
        reveal_strlit("    [");
        reveal_strlit("] ");
        reveal_strlit("0x");
        reveal_strlit("\n");
    }
    let mut ip = start;
    let mut k: usize = 0;
    proof {
        assert(es@.subrange(0, es@.len() as int) =~= es@);
    }
    while k < es.len()
        invariant
            k <= es@.len(),
            ip + prefix_size(es@.subrange(k as int, es@.len() as int), es@.len() - k) <= u32::MAX,
            forall|j: int| 0 <= j < es@.len() ==> (#[trigger] es@[j] matches Program::Instr(e) ==> e.ip + 4 <= u32::MAX),
            old(out)@ + entries_listing(es@, start as nat, symbols.functions@) == out@ + entries_listing(
                es@.subrange(k as int, es@.len() as int),
                ip as nat,
                symbols.functions@,
            ),
            start + prefix_size(es@, es@.len() as int) == ip + prefix_size(es@.subrange(k as int, es@.len() as int), es@.len() - k),
        decreases es@.len() - k,
    {
        let ghost rest = es@.subrange(k as int, es@.len() as int);
        let ghost before = out@;
        proof {
            lemma_prefix_size_front(rest);
            assert(rest.subrange(1, rest.len() as int) =~= es@.subrange(k + 1, es@.len() as int));
            assert(rest[0] == es@[k as int]);
            lemma_prefix_size_monotonic(rest.subrange(1, rest.len() as int), 0, rest.len() - 1);
        }
        let entry = es[k];
        out.append("    [");
        let address = hex_string(ip as u32, 4);
        out.append(address.as_str());
        out.append("] ");
        match entry {
            Program::Instr(instruction) => {
                let text = instruction.text(symbols);
                out.append(text.as_str());
            },
            Program::Data(data) => {
                out.append("0x");
                let digits = hex_string(data as u32, 2);
                out.append(digits.as_str());
            },
        }
        out.append("\n");
        assert(out@ == before + entry_line(entry, ip as nat, symbols.functions@));
        ip = ip + entry.size();
        k = k + 1;
    }
    proof {
        assert(es@.subrange(es@.len() as int, es@.len() as int) =~= Seq::<Program>::empty());
        assert(es@.subrange(0, es@.len() as int) =~= es@);
    }
    ip
}

proof fn lemma_blocks_size_nonnegative(bs: Seq<BlockView>)
    ensures
        blocks_size(bs) >= 0,
        bs.len() > 0 ==> blocks_size(bs) >= prefix_size(bs[0].instructions, bs[0].instructions.len() as int),
    decreases bs.len(),
{
    if bs.len() > 0 {
        lemma_blocks_size_nonnegative(bs.subrange(1, bs.len() as int));
        lemma_prefix_size_monotonic(bs[0].instructions, 0, bs[0].instructions.len() as int);
    }
}

impl DecompiledFunction<BasicBlock> {
    /// The function's listing: its header, then each block's label and
    /// successor followed by its entries at their addresses.
    pub fn listing(&self, symbols: &DebugSymbols) -> (r: String)
        requires
            self.start + blocks_size(block_views(self.program@)) <= u32::MAX,
            entries_addressable(block_views(self.program@)),
        ensures
            r@ == function_listing(self, symbols.functions@),
    {
        proof {
            reveal_strlit("\n");
            reveal_strlit("  _bb_");
            reveal_strlit(" -> ");
        }
        let ghost views = block_views(self.program@);
        let mut out = self.header(symbols);
        out.append("\n");
        let ghost head = out@;
        let mut ip: usize = self.start as usize;
        let mut k: usize = 0;
        proof {
            assert(views.subrange(0, views.len() as int) =~= views);
        }
        while k < self.program.len()
            invariant
                k <= self.program@.len(),
                views == block_views(self.program@),
                entries_addressable(views),
                ip + blocks_size(views.subrange(k as int, views.len() as int)) <= u32::MAX,
                head + blocks_listing(views, self.start as nat, symbols.functions@) == out@ + blocks_listing(
                    views.subrange(k as int, views.len() as int),
                    ip as nat,
                    symbols.functions@,
                ),
            decreases self.program@.len() - k,
        {
            let ghost rest = views.subrange(k as int, views.len() as int);
            let ghost before = out@;
            let block = &self.program[k];
            proof {
                assert(rest[0] == block@);
                assert(rest.subrange(1, rest.len() as int) =~= views.subrange(k + 1, views.len() as int));
                lemma_blocks_size_nonnegative(rest.subrange(1, rest.len() as int));
                assert forall|j: int| 0 <= j < block.instructions@.len() implies (#[trigger] block.instructions@[j]
                    matches Program::Instr(e) ==> e.ip + 4 <= u32::MAX) by {
                    assert(views[k as int].instructions[j] == block.instructions@[j]);
                }
            }
            out.append("  _bb_");
            let label = hex_string(block.start, 4);
            out.append(label.as_str());
            out.append(" -> ");
            let successor = block.successor.text();
            out.append(successor.as_str());
            out.append("\n");
            let ghost labelled = out@;
            let ghost old_ip = ip;
            ip = write_entries(&mut out, &block.instructions, ip, symbols);
            proof {
                let line = "  _bb_"@ + hex_digits(block.start as nat, 4) + " -> "@ + successor_text(block.successor) + "\n"@;
                assert(labelled == before + line);
                let tail = blocks_listing(views.subrange(k + 1, views.len() as int), ip as nat, symbols.functions@);
                assert(rest.len() > 0);
                assert(rest[0].instructions == block.instructions@);
                lemma_prefix_size_monotonic(block.instructions@, 0, block.instructions@.len() as int);
                assert(old_ip + prefix_size(rest[0].instructions, rest[0].instructions.len() as int) as nat == ip as nat);
                assert(blocks_listing(rest, old_ip as nat, symbols.functions@) == line + entries_listing(
                    block.instructions@,
                    old_ip as nat,
                    symbols.functions@,
                ) + tail);
                assert(out@ + tail =~= before + (line + entries_listing(
                    block.instructions@,
                    old_ip as nat,
                    symbols.functions@,
                ) + tail));
            }
            k = k + 1;
        }
        proof {
            assert(views.subrange(views.len() as int, views.len() as int) =~= Seq::<BlockView>::empty());
        }
        out
    }
}

/// Whether every entry of the program ends within 32-bit addresses.
pub open spec fn program_fits(program: Seq<(usize, Program)>) -> bool {
    forall|i: int| 0 <= i < program.len() ==> (#[trigger] program[i]).0 + entry_size(program[i].1) <= u32::MAX
}

fn program_fits_exec(program: &Vec<(usize, Program)>) -> (r: bool)
    ensures
        r == program_fits(program@),
{
    let mut i: usize = 0;
    while i < program.len()
        invariant
            i <= program@.len(),
            forall|j: int| 0 <= j < i ==> (#[trigger] program@[j]).0 + entry_size(program@[j].1) <= u32::MAX,
        decreases program@.len() - i,
    {
        let (ip, entry) = program[i];
        if ip > u32::MAX as usize || entry.size() > u32::MAX as usize - ip {
            return false;
        }
        i = i + 1;
    }
    true
}

fn convertible(f: &DecompiledFunction<Program>) -> (r: bool)
    ensures
        r == can_convert(f),
{
    if f.program.len() == 0 {
        return false;
    }
    let mut end: u64 = f.start as u64;
    let mut i: usize = 0;
    while i < f.program.len()
        invariant
            i <= f.program@.len(),
            end == f.start + prefix_size(f.program@, i as int),
            end <= u32::MAX,
            forall|j: int| 0 <= j < i ==> entry_fits(#[trigger] f.program@[j]),
        decreases f.program@.len() - i,
    {
        let entry = f.program[i];
        let fits = match entry {
            Program::Instr(e) => e.ip <= u32::MAX as usize - 4 && e.size <= u32::MAX as usize - e.ip,
            Program::Data(_) => true,
        };
        let size = entry.size();
        if !fits || size as u64 > u32::MAX as u64 - end {
            proof {
                if fits {
                    lemma_prefix_size_monotonic(f.program@, i + 1, f.program@.len() as int);
                }
            }
            return false;
        }
        end = end + size as u64;
        i = i + 1;
    }
    true
}

fn entries_addressable_exec(es: &Vec<Program>) -> (r: bool)
    ensures
        r == forall|j: int| 0 <= j < es@.len() ==> (#[trigger] es@[j] matches Program::Instr(e) ==> e.ip + 4 <= u32::MAX),
{
    let mut j: usize = 0;
    while j < es.len()
        invariant
            j <= es@.len(),
            forall|l: int| 0 <= l < j ==> (#[trigger] es@[l] matches Program::Instr(e) ==> e.ip + 4 <= u32::MAX),
        decreases es@.len() - j,
    {
        match es[j] {
            Program::Instr(e) => {
                if e.ip > u32::MAX as usize - 4 {
                    return false;
                }
            },
            Program::Data(_) => {},
        }
        j = j + 1;
    }
    true
}

fn entries_size_within(es: &Vec<Program>, limit: u64) -> (r: Option<u64>)
    requires
        limit <= u32::MAX,
    ensures
        match r {
            Some(size) => size == prefix_size(es@, es@.len() as int) && size <= limit,
            None => prefix_size(es@, es@.len() as int) > limit,
        },
{
    let mut size: u64 = 0;
    let mut l: usize = 0;
    while l < es.len()
        invariant
            limit <= u32::MAX,
            l <= es@.len(),
            size == prefix_size(es@, l as int),
            size <= limit,
        decreases es@.len() - l,
    {
        let entry_size = es[l].size();
        if entry_size as u64 > limit - size {
            proof {
                lemma_prefix_size_monotonic(es@, l + 1, es@.len() as int);
            }
            return None;
        }
        size = size + entry_size as u64;
        l = l + 1;
    }
    Some(size)
}

impl DecompiledFunction<BasicBlock> {
    /// Whether the function can be listed: its addresses stay within 32
    /// bits.
    pub fn can_list(&self) -> (r: bool)
        ensures
            r == (self.start + blocks_size(block_views(self.program@)) <= u32::MAX && entries_addressable(
                block_views(self.program@),
            )),
    {
        let ghost views = block_views(self.program@);
        let mut end: u64 = self.start as u64;
        let mut k: usize = 0;
        proof {
            assert(views.subrange(0, views.len() as int) =~= views);
        }
        while k < self.program.len()
            invariant
                k <= self.program@.len(),
                views == block_views(self.program@),
                end <= u32::MAX,
                self.start + blocks_size(views) == end + blocks_size(views.subrange(k as int, views.len() as int)),
                forall|i: int, j: int|
                    0 <= i < k && 0 <= j < views[i].instructions.len() ==> (#[trigger] views[i].instructions[j]
                        matches Program::Instr(e) ==> e.ip + 4 <= u32::MAX),
            decreases self.program@.len() - k,
        {
            let block = &self.program[k];
            let ghost rest = views.subrange(k as int, views.len() as int);
            proof {
                assert(rest[0] == block@);
                assert(views[k as int] == block@);
                assert(rest.subrange(1, rest.len() as int) =~= views.subrange(k + 1, views.len() as int));
                lemma_blocks_size_nonnegative(rest.subrange(1, rest.len() as int));
                lemma_blocks_size_nonnegative(rest);
            }
            if !entries_addressable_exec(&block.instructions) {
                return false;
            }
            match entries_size_within(&block.instructions, u32::MAX as u64 - end) {
                None => {
                    return false;
                },
                Some(size) => {
                    end = end + size;
                },
            }
            proof {
                assert forall|i: int, m: int|
                    0 <= i < k + 1 && 0 <= m < views[i].instructions.len() implies (#[trigger] views[i].instructions[m]
                        matches Program::Instr(e) ==> e.ip + 4 <= u32::MAX) by {
                    if i == k {
                        assert(views[i].instructions[m] == block.instructions@[m]);
                    }
                }
            }
            k = k + 1;
        }
        proof {
            assert(views.subrange(views.len() as int, views.len() as int) =~= Seq::<BlockView>::empty());
        }
        true
    }
}

/// The functions of the program image `bytes` along the symbols, before
/// their entries are gathered into blocks.
pub open spec fn decompiled_functions(bytes: Seq<u8>, symbols: Seq<Function>) -> Seq<FunctionView> {
    let program = loaded(bytes, symbols, 0, false);
    grouped(symbols, program, program.len()).0
}

/// Whether the program image can be decompiled: it can be loaded, its
/// entries end within 32-bit addresses, and every function has entries
/// whose addresses fit.
pub open spec fn decompilable(bytes: Seq<u8>, symbols: Seq<Function>) -> bool {
    &&& bytes.len() + 4 <= usize::MAX
    &&& loadable(bytes, symbols, 0, false)
    &&& program_fits(loaded(bytes, symbols, 0, false))
    &&& forall|i: int|
        0 <= i < decompiled_functions(bytes, symbols).len() ==> {
            let f = #[trigger] decompiled_functions(bytes, symbols)[i];
            f.program.len() > 0 && entries_fit(f.program, f.start)
        }
}

/// Decompiles the program image `bytes` along the symbols into functions
/// made of basic blocks; nothing where it cannot be decompiled.
pub fn decompile(bytes: &[u8], symbols: &DebugSymbols) -> (r: Option<Vec<DecompiledFunction<BasicBlock>>>)
    ensures
        r is Some <==> decompilable(bytes@, symbols.functions@),
        r matches Some(fs) ==> {
            let views = decompiled_functions(bytes@, symbols.functions@);
            &&& fs@.len() == views.len()
            &&& forall|i: int|
                0 <= i < fs@.len() ==> {
                    let f = #[trigger] views[i];
                    let g = fs@[i];
                    &&& g.start == f.start
                    &&& g.name@ == f.name
                    &&& g.is_mapped == f.is_mapped
                    &&& g.end == f.end
                    &&& g.symbol == f.symbol
                    &&& block_views(g.program@) == split_blocks(finished_blocks(f.program, f.start))
                }
        },
{
    if bytes.len() > usize::MAX - 4 {
        return None;
    }
    if !can_load_program(bytes, symbols) {
        return None;
    }
    let program = load_program(bytes, symbols);
    if !program_fits_exec(&program) {
        return None;
    }
    let functions = load_functions(&program, symbols);
    let ghost views = decompiled_functions(bytes@, symbols.functions@);
    assert(function_views(functions@) == views);
    let mut i: usize = 0;
    while i < functions.len()
        invariant
            i <= functions@.len(),
            views == decompiled_functions(bytes@, symbols.functions@),
            function_views(functions@) == views,
            forall|j: int| 0 <= j < i ==> can_convert(&#[trigger] functions@[j]),
        decreases functions@.len() - i,
    {
        if !convertible(&functions[i]) {
            proof {
                let f = views[i as int];
                assert(f == function_view(functions@[i as int]));
                assert(!(f.program.len() > 0 && entries_fit(f.program, f.start)));
                assert(decompiled_functions(bytes@, symbols.functions@)[i as int] == f);
            }
            return None;
        }
        i = i + 1;
    }
    proof {
        assert forall|j: int| 0 <= j < views.len() implies {
            let f = #[trigger] views[j];
            f.program.len() > 0 && entries_fit(f.program, f.start)
        } by {
            assert(views[j] == function_view(functions@[j]));
            assert(can_convert(&functions@[j]));
        }
    }
    let converted = convert_to_basic_blocks(functions);
    proof {
        assert forall|j: int| 0 <= j < converted@.len() implies {
            let f = #[trigger] views[j];
            let g = converted@[j];
            &&& g.start == f.start
            &&& g.name@ == f.name
            &&& g.is_mapped == f.is_mapped
            &&& g.end == f.end
            &&& g.symbol == f.symbol
            &&& block_views(g.program@) == split_blocks(finished_blocks(f.program, f.start))
        } by {
            assert(views[j] == function_view(functions@[j]));
        }
    }
    Some(converted)
}

} // verus!
