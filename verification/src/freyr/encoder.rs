//! Encoder and decoder of instruction words. Both go by the layouts of an
//! `InstructionTable`: the five most significant bits of a word hold the
//! pseudo-op, the parts of the layout follow from left to right.
use vstd::prelude::*;
use crate::freyr::assembly::AssemblyInstruction;
use crate::freyr::vm::bits::{
    lemma_fits, lemma_header, lemma_read_after_write, lemma_upper_bits_ends, lemma_upper_bits_step,
    upper_bits,
};
use crate::freyr::vm::instructions::{
    extract, find_value, get_all_instruction_layouts, lemma_pattern_of, low_mask, place, place_bits,
    standard_entries, AddressJumpAddressSource, ArithmeticOperation, BitLayout, BitLayoutView,
    BitwiseOperation, CompareOperation, ControlRegister, Instruction, InstructionTable,
    InstructionTableView, LeftShift, LoadStoreAddressingMode, NumberOfBytes, OperationMode,
    PartType, ShiftDirection, SignFlag,
};

verus! {

/// Keeps the `bits` least significant bits of `num`.
pub fn truncate_to_bits(num: u32, bits: u32) -> (kept: u32)
    requires
        1 <= bits <= 32,
    ensures
        kept == num & low_mask(bits as u8),
{
    let shift: u32 = 32 - bits;
    assert((num << shift) >> shift == num & low_mask(bits as u8)) by (bit_vector)
        requires
            1 <= bits <= 32,
            shift == 32 - bits,
            low_mask(bits as u8) == (if bits >= 32 {
                0xffff_ffffu32
            } else {
                ((1u32 << bits) - 1) as u32
            }),
    ;
    (num << shift) >> shift
}

/// Clears the `bits` most significant bits of `num`.
pub fn delete_msb_bits(num: u32, bits: u32) -> (kept: u32)
    requires
        bits < 32,
    ensures
        kept == num & low_mask((32 - bits) as u8),
{
    assert((num << bits) >> bits == num & low_mask((32 - bits) as u8)) by (bit_vector)
        requires
            bits < 32,
            low_mask((32 - bits) as u8) == (if bits == 0 {
                0xffff_ffffu32
            } else {
                ((1u32 << ((32 - bits) as u32)) - 1) as u32
            }),
    ;
    (num << bits) >> bits
}

/// The word of a stack-offset instruction: the pseudo-op `01101` above the
/// 27 low bits of `offset`.
pub open spec fn stackoffset_word(offset: u32) -> u32 {
    (0x6800_0000u32 + (offset & 0x07ff_ffffu32)) as u32
}

/// Encodes a stack offset of `offset` bytes.
pub fn encode_stackoffset(offset: u32) -> (word: u32)
    ensures
        word == stackoffset_word(offset),
        word >> 27 == 0b01101,
        word & 0x07ff_ffff == offset & 0x07ff_ffff,
{
    let bit_pattern: u32 = 0b01101 << 27;
    let bytes: u32 = truncate_to_bits(offset, 27);
    assert(bit_pattern == 0x6800_0000u32 && bytes == offset & 0x07ff_ffffu32 && bytes <= 0x07ff_ffff
        && (0x6800_0000u32 + bytes) as u32 >> 27 == 0b01101 && (0x6800_0000u32 + bytes) as u32
        & 0x07ff_ffff == bytes) by (bit_vector)
        requires
            bit_pattern == 0b01101u32 << 27,
            bytes == offset & (((1u32 << 27u32) - 1) as u32),
    ;
    bit_pattern + bytes
}

/// The word that an assembly instruction is encoded as: a stack offset as
/// `stackoffset_word` says, every other instruction as 0.
pub open spec fn assembly_word(ins: AssemblyInstruction) -> u32 {
    match ins {
        AssemblyInstruction::StackOffset { bytes } => stackoffset_word(bytes),
        _ => 0,
    }
}

/// Encodes one assembly instruction.
pub fn encode_instruction(ins: &AssemblyInstruction) -> (word: u32)
    ensures
        word == assembly_word(*ins),
{
    match ins {
        AssemblyInstruction::StackOffset { bytes } => encode_stackoffset(*bytes),
        _ => 0,
    }
}

/// Encodes a program, instruction by instruction.
pub fn encode_asm(code: &[AssemblyInstruction]) -> (words: Vec<u32>)
    ensures
        words@ == Seq::new(code@.len(), |i: int| assembly_word(code@[i])),
{
    let mut words: Vec<u32> = Vec::new();
    let mut i: usize = 0;
    while i < code.len()
        invariant
            0 <= i <= code.len(),
            words@ == Seq::new(i as nat, |k: int| assembly_word(code@[k])),
        decreases code.len() - i,
    {
        words.push(encode_instruction(&code[i]));
        i += 1;
        assert(words@ =~= Seq::new(i as nat, |k: int| assembly_word(code@[k])));
    }
    words
}

/// Builds one instruction word, part by part.
pub struct InstructionEncoder<'a> {
    pub layout: &'a BitLayout,
    pub current: u32,
}

impl<'a> InstructionEncoder<'a> {
    /// Writes `value` to the part called `part`: the value itself for an
    /// immediate, its bit pattern for an enumerated part, cut to the part's
    /// length and or-ed into the word at the part's place.
    pub fn encode(&mut self, part: &str, value: u32) -> (ret: &mut Self)
        requires
            old(self).layout@.wf(),
            old(self).layout@.accepts(part@, value),
        ensures
            ret.layout == old(self).layout,
            ret.current == old(self).layout@.with_field(old(self).current, part@, value),
            *final(self) == *final(ret),
    {
        match self.layout.locate(part) {
            Some((i, start)) => {
                proof {
                    self.layout@.lemma_index_of(part@, i as int);
                    self.layout@.lemma_part_fits(i as int);
                }
                let layout_part = &self.layout.layout[i];
                let bits = match &layout_part.layout_type {
                    PartType::BitPattern(patterns) => {
                        match find_value(patterns, value) {
                            Some(k) => {
                                proof {
                                    lemma_pattern_of(patterns@, value, k as int);
                                }
                                patterns[k].pattern
                            },
                            None => unreached(),
                        }
                    },
                    PartType::Immediate => value,
                };
                self.current = self.current | place_bits(bits, start, layout_part.length);
            },
            None => unreached(),
        }
        self
    }

    /// The word built so far.
    pub fn make(&self) -> (word: u32)
        ensures
            word == self.current,
    {
        self.current
    }
}


/// The integer that up to four bytes stand for, least significant byte
/// first; missing bytes count as zero.
pub open spec fn le_bytes_value(bytes: Seq<u8>) -> u32 {
    le_byte(bytes, 0) | (le_byte(bytes, 1) << 8) | (le_byte(bytes, 2) << 16) | (le_byte(bytes, 3)
        << 24)
}

/// Byte `i` of `bytes` as a word, zero past the end.
pub open spec fn le_byte(bytes: Seq<u8>, i: int) -> u32 {
    if 0 <= i < bytes.len() {
        bytes[i] as u32
    } else {
        0
    }
}

impl BitLayoutView {
    /// The word that holds the pseudo-op and nothing else.
    pub open spec fn header(self) -> u32 {
        (self.pseudoop as u32) << 27
    }

    /// The layout takes the 1 given operand.
    pub open spec fn accepts1(self, n1: Seq<char>, v1: u32) -> bool {
        &&& self.accepts(n1, v1)
    }

    /// The pseudo-op with the 1 given operand written after it, in this order.
    pub open spec fn word1(self, n1: Seq<char>, v1: u32) -> u32 {
        self.with_field(self.header(), n1, v1)
    }

    /// The layout takes the 2 given operands.
    pub open spec fn accepts2(self, n1: Seq<char>, v1: u32, n2: Seq<char>, v2: u32) -> bool {
        &&& self.accepts(n1, v1)
        &&& self.accepts(n2, v2)
    }

    /// The pseudo-op with the 2 given operands written after it, in this order.
    pub open spec fn word2(self, n1: Seq<char>, v1: u32, n2: Seq<char>, v2: u32) -> u32 {
        self.with_field(self.with_field(self.header(), n1, v1), n2, v2)
    }

    /// The layout takes the 3 given operands.
    pub open spec fn accepts3(
        self,
        n1: Seq<char>,
        v1: u32,
        n2: Seq<char>,
        v2: u32,
        n3: Seq<char>,
        v3: u32,
    ) -> bool {
        &&& self.accepts(n1, v1)
        &&& self.accepts(n2, v2)
        &&& self.accepts(n3, v3)
    }

    /// The pseudo-op with the 3 given operands written after it, in this order.
    pub open spec fn word3(
        self,
        n1: Seq<char>,
        v1: u32,
        n2: Seq<char>,
        v2: u32,
        n3: Seq<char>,
        v3: u32,
    ) -> u32 {
        self.with_field(self.with_field(self.with_field(self.header(), n1, v1), n2, v2), n3, v3)
    }

    /// The layout takes the 5 given operands.
    pub open spec fn accepts5(
        self,
        n1: Seq<char>,
        v1: u32,
        n2: Seq<char>,
        v2: u32,
        n3: Seq<char>,
        v3: u32,
        n4: Seq<char>,
        v4: u32,
        n5: Seq<char>,
        v5: u32,
    ) -> bool {
        &&& self.accepts(n1, v1)
        &&& self.accepts(n2, v2)
        &&& self.accepts(n3, v3)
        &&& self.accepts(n4, v4)
        &&& self.accepts(n5, v5)
    }

    /// The pseudo-op with the 5 given operands written after it, in this order.
    pub open spec fn word5(
        self,
        n1: Seq<char>,
        v1: u32,
        n2: Seq<char>,
        v2: u32,
        n3: Seq<char>,
        v3: u32,
        n4: Seq<char>,
        v4: u32,
        n5: Seq<char>,
        v5: u32,
    ) -> u32 {
        self.with_field(
            self.with_field(
                self.with_field(
                    self.with_field(self.with_field(self.header(), n1, v1), n2, v2),
                    n3,
                    v3,
                ),
                n4,
                v4,
            ),
            n5,
            v5,
        )
    }
}

impl InstructionTableView {
    /// The table can encode `instruction`: it holds the layout of that
    /// name, and the layout takes every operand. `Noop` needs no layout.
    pub open spec fn supports(self, instruction: Instruction) -> bool {
        match instruction {
            Instruction::Noop => true,
            Instruction::StackOffset { bytes } => self.has_layout("stackoffset"@)
                && self.layout("stackoffset"@).accepts1(
                "num bytes"@, bytes,
            ),
            Instruction::PushImmediate { bytes, lshift, immediate } => self.has_layout("push_imm"@)
                && self.layout("push_imm"@).accepts3(
                "num bytes"@, bytes.bytes() as u32,
                "lshift"@, lshift.shift_size() as u32,
                "immediate lsb"@, le_pair_value(immediate),
            ),
            Instruction::LoadAddress { bytes, mode, operand } => self.has_layout("loadaddr"@)
                && self.layout("loadaddr"@).accepts3(
                "num bytes"@, bytes.bytes() as u32,
                "mode"@, mode.pattern() as u32,
                "operand"@, operand,
            ),
            Instruction::StoreAddress { bytes, mode, operand } => self.has_layout("storeaddr"@)
                && self.layout("storeaddr"@).accepts3(
                "num bytes"@, bytes.bytes() as u32,
                "mode"@, mode.pattern() as u32,
                "operand"@, operand,
            ),
            Instruction::BitShift { bytes, direction, mode, sign, operand } => self.has_layout("shift"@)
                && self.layout("shift"@).accepts5(
                "num bytes"@, bytes.bytes() as u32,
                "direction"@, direction.pattern() as u32,
                "mode"@, mode.pattern() as u32,
                "keep sign"@, sign.pattern() as u32,
                "operand"@, operand as u32,
            ),
            Instruction::Bitwise { bytes, operation, sign, mode, operand } => self.has_layout("bitwise"@)
                && self.layout("bitwise"@).accepts5(
                "num bytes"@, bytes.bytes() as u32,
                "operation"@, operation.pattern() as u32,
                "mode"@, mode.pattern() as u32,
                "sign"@, sign.pattern() as u32,
                "operand"@, le_pair_value(operand),
            ),
            Instruction::IntegerArithmetic { bytes, operation, sign, mode, operand } => self.has_layout("integer_binary_op"@)
                && self.layout("integer_binary_op"@).accepts5(
                "num bytes"@, bytes.bytes() as u32,
                "operation"@, operation.pattern() as u32,
                "sign"@, sign.pattern() as u32,
                "mode"@, mode.pattern() as u32,
                "operand"@, le_pair_value(operand),
            ),
            Instruction::IntegerCompare { bytes, operation, sign, mode, operand } => self.has_layout("integer_compare"@)
                && self.layout("integer_compare"@).accepts5(
                "num bytes"@, bytes.bytes() as u32,
                "operation"@, operation.pattern() as u32,
                "sign"@, sign.pattern() as u32,
                "mode"@, mode.pattern() as u32,
                "operand"@, le_pair_value(operand),
            ),
            Instruction::FloatArithmetic { bytes, operation } => self.has_layout("float_binary_op"@)
                && self.layout("float_binary_op"@).accepts2(
                "num bytes"@, bytes.bytes() as u32, "operation"@, operation.pattern() as u32,
            ),
            Instruction::FloatCompare { bytes, operation } => self.has_layout("float_compare_op"@)
                && self.layout("float_compare_op"@).accepts2(
                "num bytes"@, bytes.bytes() as u32, "operation"@, operation.pattern() as u32,
            ),
            Instruction::PushFromRegister { control_register } => self.has_layout("push_reg"@)
                && self.layout("push_reg"@).accepts1(
                "register"@, control_register.pattern() as u32,
            ),
            Instruction::PopIntoRegister { control_register } => self.has_layout("pop_reg"@)
                && self.layout("pop_reg"@).accepts1(
                "register"@, control_register.pattern() as u32,
            ),
            Instruction::Pop { bytes } => self.has_layout("pop"@) && self.layout("pop"@).accepts1(
                "num bytes"@, bytes.bytes() as u32,
            ),
            Instruction::Call { source, offset } => self.has_layout("call"@)
                && self.layout("call"@).accepts2(
                "source"@, source.pattern() as u32, "offset"@, offset,
            ),
            Instruction::JumpIfZero { source, offset } => self.has_layout("jz"@)
                && self.layout("jz"@).accepts2(
                "source"@, source.pattern() as u32, "offset"@, offset,
            ),
            Instruction::JumpIfNotZero { source, offset } => self.has_layout("jnz"@)
                && self.layout("jnz"@).accepts2(
                "source"@, source.pattern() as u32, "offset"@, offset,
            ),
            Instruction::JumpUnconditional { source, offset } => self.has_layout("jmp"@)
                && self.layout("jmp"@).accepts2(
                "source"@, source.pattern() as u32, "offset"@, offset,
            ),
            Instruction::Exit => self.has_layout("exit"@),
            Instruction::Return => self.has_layout("return"@),
        }
    }

    /// The word of `instruction`: 0 for `Noop`, else the pseudo-op of its
    /// layout with every operand written to its part.
    pub open spec fn word(self, instruction: Instruction) -> u32 {
        match instruction {
            Instruction::Noop => 0,
            Instruction::StackOffset { bytes } => self.layout("stackoffset"@).word1(
                "num bytes"@, bytes,
            ),
            Instruction::PushImmediate { bytes, lshift, immediate } =>
                self.layout("push_imm"@).word3(
                "num bytes"@, bytes.bytes() as u32,
                "lshift"@, lshift.shift_size() as u32,
                "immediate lsb"@, le_pair_value(immediate),
            ),
            Instruction::LoadAddress { bytes, mode, operand } => self.layout("loadaddr"@).word3(
                "num bytes"@, bytes.bytes() as u32,
                "mode"@, mode.pattern() as u32,
                "operand"@, operand,
            ),
            Instruction::StoreAddress { bytes, mode, operand } => self.layout("storeaddr"@).word3(
                "num bytes"@, bytes.bytes() as u32,
                "mode"@, mode.pattern() as u32,
                "operand"@, operand,
            ),
            Instruction::BitShift { bytes, direction, mode, sign, operand } =>
                self.layout("shift"@).word5(
                "num bytes"@, bytes.bytes() as u32,
                "direction"@, direction.pattern() as u32,
                "mode"@, mode.pattern() as u32,
                "keep sign"@, sign.pattern() as u32,
                "operand"@, operand as u32,
            ),
            Instruction::Bitwise { bytes, operation, sign, mode, operand } =>
                self.layout("bitwise"@).word5(
                "num bytes"@, bytes.bytes() as u32,
                "operation"@, operation.pattern() as u32,
                "mode"@, mode.pattern() as u32,
                "sign"@, sign.pattern() as u32,
                "operand"@, le_pair_value(operand),
            ),
            Instruction::IntegerArithmetic { bytes, operation, sign, mode, operand } =>
                self.layout("integer_binary_op"@).word5(
                "num bytes"@, bytes.bytes() as u32,
                "operation"@, operation.pattern() as u32,
                "sign"@, sign.pattern() as u32,
                "mode"@, mode.pattern() as u32,
                "operand"@, le_pair_value(operand),
            ),
            Instruction::IntegerCompare { bytes, operation, sign, mode, operand } =>
                self.layout("integer_compare"@).word5(
                "num bytes"@, bytes.bytes() as u32,
                "operation"@, operation.pattern() as u32,
                "sign"@, sign.pattern() as u32,
                "mode"@, mode.pattern() as u32,
                "operand"@, le_pair_value(operand),
            ),
            Instruction::FloatArithmetic { bytes, operation } =>
                self.layout("float_binary_op"@).word2(
                "num bytes"@, bytes.bytes() as u32, "operation"@, operation.pattern() as u32,
            ),
            Instruction::FloatCompare { bytes, operation } =>
                self.layout("float_compare_op"@).word2(
                "num bytes"@, bytes.bytes() as u32, "operation"@, operation.pattern() as u32,
            ),
            Instruction::PushFromRegister { control_register } => self.layout("push_reg"@).word1(
                "register"@, control_register.pattern() as u32,
            ),
            Instruction::PopIntoRegister { control_register } => self.layout("pop_reg"@).word1(
                "register"@, control_register.pattern() as u32,
            ),
            Instruction::Pop { bytes } => self.layout("pop"@).word1(
                "num bytes"@, bytes.bytes() as u32,
            ),
            Instruction::Call { source, offset } => self.layout("call"@).word2(
                "source"@, source.pattern() as u32, "offset"@, offset,
            ),
            Instruction::JumpIfZero { source, offset } => self.layout("jz"@).word2(
                "source"@, source.pattern() as u32, "offset"@, offset,
            ),
            Instruction::JumpIfNotZero { source, offset } => self.layout("jnz"@).word2(
                "source"@, source.pattern() as u32, "offset"@, offset,
            ),
            Instruction::JumpUnconditional { source, offset } => self.layout("jmp"@).word2(
                "source"@, source.pattern() as u32, "offset"@, offset,
            ),
            Instruction::Exit => self.layout("exit"@).header(),
            Instruction::Return => self.layout("return"@).header(),
        }
    }
}

/// The 16-bit integer that a pair of bytes stands for, least significant
/// byte first.
pub open spec fn le_pair_value(bytes: [u8; 2]) -> u32 {
    (bytes[0] as u32) | ((bytes[1] as u32) << 8)
}

/// Reads a pair of bytes as an integer, least significant byte first.
pub fn le_pair_to_u32(bytes: &[u8; 2]) -> (value: u32)
    ensures
        value == le_pair_value(*bytes),
{
    (bytes[0] as u32) | ((bytes[1] as u32) << 8)
}

/// Reads up to four bytes as an integer, least significant byte first.
pub fn le_bytes_to_u32(bytes: &[u8]) -> (value: u32)
    requires
        bytes@.len() <= 4,
    ensures
        value == le_bytes_value(bytes@),
{
    let b0: u32 = if bytes.len() > 0 { bytes[0] as u32 } else { 0 };
    let b1: u32 = if bytes.len() > 1 { bytes[1] as u32 } else { 0 };
    let b2: u32 = if bytes.len() > 2 { bytes[2] as u32 } else { 0 };
    let b3: u32 = if bytes.len() > 3 { bytes[3] as u32 } else { 0 };
    b0 | (b1 << 8) | (b2 << 16) | (b3 << 24)
}

impl<'a> InstructionEncoder<'a> {
    /// Writes up to four bytes to the part called `part`, as the integer
    /// they stand for with the least significant byte first.
    pub fn encode_bytes(&mut self, part: &str, value: &[u8]) -> (ret: &mut Self)
        requires
            value@.len() <= 4,
            old(self).layout@.wf(),
            old(self).layout@.accepts(part@, le_bytes_value(value@)),
        ensures
            ret.layout == old(self).layout,
            ret.current == old(self).layout@.with_field(
                old(self).current,
                part@,
                le_bytes_value(value@),
            ),
            *final(self) == *final(ret),
    {
        let as_u32 = le_bytes_to_u32(value);
        self.encode(part, as_u32)
    }
}

/// Encodes and decodes instructions by the layouts of its table.
pub struct LayoutHelper {
    pub table: InstructionTable,
}

impl LayoutHelper {
    /// A helper over the standard instruction table.
    pub fn new() -> (helper: LayoutHelper)
        ensures
            helper.table@.wf(),
            helper.table@.entries == standard_entries(),
    {
        let table = get_all_instruction_layouts();
        LayoutHelper { table }
    }

    /// Starts the word of the instruction whose layout is called `name`:
    /// the pseudo-op in the five most significant bits, all other bits zero.
    pub fn begin_encode(&self, name: &str) -> (encoder: InstructionEncoder<'_>)
        requires
            self.table@.wf(),
            self.table@.has_layout(name@),
        ensures
            encoder.layout@ == self.table@.layout(name@),
            encoder.layout@.wf(),
            encoder.current == encoder.layout@.header(),
    {
        match self.table.get(name) {
            Some(layout) => {
                let op: u32 = layout.instruction_pseudoop as u32;
                InstructionEncoder { layout, current: op << 27 }
            },
            None => unreached(),
        }
    }

    /// Encodes an instruction of 1 operand: the pseudo-op of the layout
    /// called `name`, then each operand written to its part.
    pub fn encode1(&self, name: &str, n1: &str, v1: u32) -> (word: u32)
        requires
            self.table@.wf(),
            self.table@.has_layout(name@),
            self.table@.layout(name@).accepts1(n1@, v1),
        ensures
            word == self.table@.layout(name@).word1(n1@, v1),
    {
        let mut encoder = self.begin_encode(name);
        encoder.encode(n1, v1);
        encoder.make()
    }

    /// Encodes an instruction of 2 operands: the pseudo-op of the layout
    /// called `name`, then each operand written to its part.
    pub fn encode2(&self, name: &str, n1: &str, v1: u32, n2: &str, v2: u32) -> (word: u32)
        requires
            self.table@.wf(),
            self.table@.has_layout(name@),
            self.table@.layout(name@).accepts2(n1@, v1, n2@, v2),
        ensures
            word == self.table@.layout(name@).word2(n1@, v1, n2@, v2),
    {
        let mut encoder = self.begin_encode(name);
        encoder.encode(n1, v1);
        encoder.encode(n2, v2);
        encoder.make()
    }

    /// Encodes an instruction of 3 operands: the pseudo-op of the layout
    /// called `name`, then each operand written to its part.
    pub fn encode3(
        &self,
        name: &str,
        n1: &str,
        v1: u32,
        n2: &str,
        v2: u32,
        n3: &str,
        v3: u32,
    ) -> (word: u32)
        requires
            self.table@.wf(),
            self.table@.has_layout(name@),
            self.table@.layout(name@).accepts3(n1@, v1, n2@, v2, n3@, v3),
        ensures
            word == self.table@.layout(name@).word3(n1@, v1, n2@, v2, n3@, v3),
    {
        let mut encoder = self.begin_encode(name);
        encoder.encode(n1, v1);
        encoder.encode(n2, v2);
        encoder.encode(n3, v3);
        encoder.make()
    }

    /// Encodes an instruction of 5 operands: the pseudo-op of the layout
    /// called `name`, then each operand written to its part.
    pub fn encode5(
        &self,
        name: &str,
        n1: &str,
        v1: u32,
        n2: &str,
        v2: u32,
        n3: &str,
        v3: u32,
        n4: &str,
        v4: u32,
        n5: &str,
        v5: u32,
    ) -> (word: u32)
        requires
            self.table@.wf(),
            self.table@.has_layout(name@),
            self.table@.layout(name@).accepts5(n1@, v1, n2@, v2, n3@, v3, n4@, v4, n5@, v5),
        ensures
            word == self.table@.layout(name@).word5(n1@, v1, n2@, v2, n3@, v3, n4@, v4, n5@, v5),
    {
        let mut encoder = self.begin_encode(name);
        encoder.encode(n1, v1);
        encoder.encode(n2, v2);
        encoder.encode(n3, v3);
        encoder.encode(n4, v4);
        encoder.encode(n5, v5);
        encoder.make()
    }

    /// Encodes an instruction that moves data between the stack, memory and the registers.
    fn encode_stack_instruction(&self, instruction: &Instruction) -> (word: u32)
        requires
            self.table@.wf(),
            self.table@.supports(*instruction),
            instruction is StackOffset
                || instruction is PushImmediate
                || instruction is LoadAddress
                || instruction is StoreAddress
                || instruction is PushFromRegister
                || instruction is PopIntoRegister
                || instruction is Pop,
        ensures
            word == self.table@.word(*instruction),
    {
        match instruction {
            Instruction::StackOffset { bytes } => self.encode1(
                "stackoffset",
                "num bytes", *bytes,
            ),
            Instruction::PushImmediate { bytes, lshift, immediate } => self.encode3(
                "push_imm",
                "num bytes", bytes.get_bytes() as u32,
                "lshift", lshift.get_shift_size() as u32,
                "immediate lsb", le_pair_to_u32(immediate),
            ),
            Instruction::LoadAddress { bytes, mode, operand } => self.encode3(
                "loadaddr",
                "num bytes", bytes.get_bytes() as u32,
                "mode", mode.get_bit_pattern() as u32,
                "operand", *operand,
            ),
            Instruction::StoreAddress { bytes, mode, operand } => self.encode3(
                "storeaddr",
                "num bytes", bytes.get_bytes() as u32,
                "mode", mode.get_bit_pattern() as u32,
                "operand", *operand,
            ),
            Instruction::PushFromRegister { control_register } => self.encode1(
                "push_reg",
                "register", control_register.get_bit_pattern() as u32,
            ),
            Instruction::PopIntoRegister { control_register } => self.encode1(
                "pop_reg",
                "register", control_register.get_bit_pattern() as u32,
            ),
            Instruction::Pop { bytes } => self.encode1(
                "pop",
                "num bytes", bytes.get_bytes() as u32,
            ),
            _ => unreached(),
        }
    }

    /// Encodes a shift, a bitwise operation, an arithmetic operation or a comparison.
    fn encode_operation(&self, instruction: &Instruction) -> (word: u32)
        requires
            self.table@.wf(),
            self.table@.supports(*instruction),
            instruction is BitShift
                || instruction is Bitwise
                || instruction is IntegerArithmetic
                || instruction is IntegerCompare
                || instruction is FloatArithmetic
                || instruction is FloatCompare,
        ensures
            word == self.table@.word(*instruction),
    {
        match instruction {
            Instruction::BitShift { bytes, direction, mode, sign, operand } => self.encode5(
                "shift",
                "num bytes", bytes.get_bytes() as u32,
                "direction", direction.get_bit_pattern() as u32,
                "mode", mode.get_bit_pattern() as u32,
                "keep sign", sign.get_bit_pattern() as u32,
                "operand", *operand as u32,
            ),
            Instruction::Bitwise { bytes, operation, sign, mode, operand } => self.encode5(
                "bitwise",
                "num bytes", bytes.get_bytes() as u32,
                "operation", operation.get_bit_pattern() as u32,
                "mode", mode.get_bit_pattern() as u32,
                "sign", sign.get_bit_pattern() as u32,
                "operand", le_pair_to_u32(operand),
            ),
            Instruction::IntegerArithmetic { bytes, operation, sign, mode, operand } => self.encode5(
                "integer_binary_op",
                "num bytes", bytes.get_bytes() as u32,
                "operation", operation.get_bit_pattern() as u32,
                "sign", sign.get_bit_pattern() as u32,
                "mode", mode.get_bit_pattern() as u32,
                "operand", le_pair_to_u32(operand),
            ),
            Instruction::IntegerCompare { bytes, operation, sign, mode, operand } => self.encode5(
                "integer_compare",
                "num bytes", bytes.get_bytes() as u32,
                "operation", operation.get_bit_pattern() as u32,
                "sign", sign.get_bit_pattern() as u32,
                "mode", mode.get_bit_pattern() as u32,
                "operand", le_pair_to_u32(operand),
            ),
            Instruction::FloatArithmetic { bytes, operation } => self.encode2(
                "float_binary_op",
                "num bytes", bytes.get_bytes() as u32,
                "operation", operation.get_bit_pattern() as u32,
            ),
            Instruction::FloatCompare { bytes, operation } => self.encode2(
                "float_compare_op",
                "num bytes", bytes.get_bytes() as u32,
                "operation", operation.get_bit_pattern() as u32,
            ),
            _ => unreached(),
        }
    }

    /// Encodes a call, a jump, a return, an exit or a no-op.
    fn encode_control_flow(&self, instruction: &Instruction) -> (word: u32)
        requires
            self.table@.wf(),
            self.table@.supports(*instruction),
            instruction is Noop
                || instruction is Call
                || instruction is JumpIfZero
                || instruction is JumpIfNotZero
                || instruction is JumpUnconditional
                || instruction is Return
                || instruction is Exit,
        ensures
            word == self.table@.word(*instruction),
    {
        match instruction {
            Instruction::Noop => 0,
            Instruction::Call { source, offset } => self.encode2(
                "call",
                "source", source.get_bit_pattern() as u32, "offset", *offset,
            ),
            Instruction::JumpIfZero { source, offset } => self.encode2(
                "jz",
                "source", source.get_bit_pattern() as u32, "offset", *offset,
            ),
            Instruction::JumpIfNotZero { source, offset } => self.encode2(
                "jnz",
                "source", source.get_bit_pattern() as u32, "offset", *offset,
            ),
            Instruction::JumpUnconditional { source, offset } => self.encode2(
                "jmp",
                "source", source.get_bit_pattern() as u32, "offset", *offset,
            ),
            Instruction::Return => self.begin_encode("return").make(),
            Instruction::Exit => self.begin_encode("exit").make(),
            _ => unreached(),
        }
    }

    /// Encodes `instruction` by the layout that the table holds for it.
    pub fn encode_instruction(&self, instruction: &Instruction) -> (word: u32)
        requires
            self.table@.wf(),
            self.table@.supports(*instruction),
        ensures
            word == self.table@.word(*instruction),
    {
        match instruction {
            Instruction::StackOffset { .. }
            | Instruction::PushImmediate { .. }
            | Instruction::LoadAddress { .. }
            | Instruction::StoreAddress { .. }
            | Instruction::PushFromRegister { .. }
            | Instruction::PopIntoRegister { .. }
            | Instruction::Pop { .. } => self.encode_stack_instruction(instruction),
            Instruction::BitShift { .. }
            | Instruction::Bitwise { .. }
            | Instruction::IntegerArithmetic { .. }
            | Instruction::IntegerCompare { .. }
            | Instruction::FloatArithmetic { .. }
            | Instruction::FloatCompare { .. } => self.encode_operation(instruction),
            _ => self.encode_control_flow(instruction),
        }
    }
}

/// The pair of bytes that holds the 16 low bits of `value`, least
/// significant byte first.
pub open spec fn le_pair_of(value: u32) -> [u8; 2] {
    [(value & 0xff) as u8, ((value >> 8) & 0xff) as u8]
}

/// Splits the 16 low bits of `value` into two bytes, least significant
/// byte first.
pub fn le_pair_from_u32(value: u32) -> (bytes: [u8; 2])
    ensures
        bytes == le_pair_of(value),
{
    let low: u32 = value & 0xff;
    let high: u32 = (value >> 8) & 0xff;
    assert(low <= 0xff && high <= 0xff) by (bit_vector)
        requires
            low == value & 0xff,
            high == (value >> 8) & 0xff,
    ;
    [low as u8, high as u8]
}

/// The least significant byte of `value`.
pub fn low_byte(value: u32) -> (byte: u8)
    ensures
        byte == (value & 0xff) as u8,
        byte == value & 0xff,
{
    let low: u32 = value & 0xff;
    assert(low <= 0xff) by (bit_vector)
        requires
            low == value & 0xff,
    ;
    low as u8
}

impl BitLayoutView {
    /// The part `name` of `word` can be read, and its bits are one of the
    /// first `count` patterns.
    pub open spec fn reads_below(self, name: Seq<char>, word: u32, count: u8) -> bool {
        self.reads(name, word) && self.raw_field(name, word) < count
    }

    /// `word` can be decoded by this layout: the pseudo-op is one of the
    /// sixteen known ones, and every part that its instruction needs can be
    /// read and holds a known pattern.
    pub open spec fn decodes(self, word: u32) -> bool {
        if self.pseudoop == 0 {
            true
        } else if self.pseudoop == 1 {
            self.reads_below("num bytes"@, word, 4)
                && self.reads_below("lshift"@, word, 4)
                && self.reads("immediate lsb"@, word)
        } else if self.pseudoop == 2 {
            self.reads_below("num bytes"@, word, 4)
                && self.reads_below("mode"@, word, 4)
                && self.reads("operand"@, word)
        } else if self.pseudoop == 3 {
            self.reads_below("num bytes"@, word, 4)
                && self.reads_below("mode"@, word, 4)
                && self.reads("operand"@, word)
        } else if self.pseudoop == 4 {
            self.reads_below("num bytes"@, word, 4)
                && self.reads_below("direction"@, word, 2)
                && self.reads_below("mode"@, word, 2)
                && self.reads_below("keep sign"@, word, 2)
                && self.reads("operand"@, word)
        } else if self.pseudoop == 5 {
            self.reads_below("num bytes"@, word, 4)
                && self.reads_below("operation"@, word, 3)
                && self.reads_below("sign"@, word, 2)
                && self.reads_below("mode"@, word, 2)
                && self.reads("operand"@, word)
        } else if self.pseudoop == 6 {
            self.reads_below("num bytes"@, word, 4)
                && self.reads_below("operation"@, word, 5)
                && self.reads_below("sign"@, word, 2)
                && self.reads_below("mode"@, word, 2)
                && self.reads("operand"@, word)
        } else if self.pseudoop == 7 {
            self.reads_below("num bytes"@, word, 4)
                && self.reads_below("operation"@, word, 6)
                && self.reads_below("sign"@, word, 2)
                && self.reads_below("mode"@, word, 2)
                && self.reads("operand"@, word)
        } else if self.pseudoop == 8 {
            self.reads_below("num bytes"@, word, 4) && self.reads_below("operation"@, word, 5)
        } else if self.pseudoop == 9 {
            self.reads_below("num bytes"@, word, 4) && self.reads_below("operation"@, word, 6)
        } else if self.pseudoop == 10 {
            self.reads_below("register"@, word, 3)
        } else if self.pseudoop == 11 {
            self.reads_below("register"@, word, 3)
        } else if self.pseudoop == 12 {
            self.reads_below("num bytes"@, word, 4)
        } else if self.pseudoop == 13 {
            self.reads("num bytes"@, word)
        } else if self.pseudoop == 14 {
            self.reads_below("source"@, word, 2) && self.reads("offset"@, word)
        } else if self.pseudoop == 15 {
            true
        } else {
            false
        }
    }

    /// The instruction that `word` stands for under this layout. Operands
    /// of an enumeration go by their bit pattern, the others by their value.
    pub open spec fn decoded(self, word: u32) -> Instruction {
        if self.pseudoop == 0 {
            Instruction::Noop
        } else if self.pseudoop == 1 {
            Instruction::PushImmediate {
                bytes: NumberOfBytes::of_pattern(self.raw_field("num bytes"@, word) as u8),
                lshift: LeftShift::of_pattern(self.raw_field("lshift"@, word) as u8),
                immediate: le_pair_of(self.raw_field("immediate lsb"@, word)),
            }
        } else if self.pseudoop == 2 {
            Instruction::LoadAddress {
                bytes: NumberOfBytes::of_pattern(self.raw_field("num bytes"@, word) as u8),
                mode: LoadStoreAddressingMode::of_pattern(self.raw_field("mode"@, word) as u8),
                operand: self.field_value("operand"@, word),
            }
        } else if self.pseudoop == 3 {
            Instruction::StoreAddress {
                bytes: NumberOfBytes::of_pattern(self.raw_field("num bytes"@, word) as u8),
                mode: LoadStoreAddressingMode::of_pattern(self.raw_field("mode"@, word) as u8),
                operand: self.field_value("operand"@, word),
            }
        } else if self.pseudoop == 4 {
            Instruction::BitShift {
                bytes: NumberOfBytes::of_pattern(self.raw_field("num bytes"@, word) as u8),
                direction: ShiftDirection::of_pattern(self.raw_field("direction"@, word) as u8),
                mode: OperationMode::of_pattern(self.raw_field("mode"@, word) as u8),
                sign: SignFlag::of_pattern(self.raw_field("keep sign"@, word) as u8),
                operand: (self.field_value("operand"@, word) & 0xff) as u8,
            }
        } else if self.pseudoop == 5 {
            Instruction::Bitwise {
                bytes: NumberOfBytes::of_pattern(self.raw_field("num bytes"@, word) as u8),
                operation: BitwiseOperation::of_pattern(self.raw_field("operation"@, word) as u8),
                sign: SignFlag::of_pattern(self.raw_field("sign"@, word) as u8),
                mode: OperationMode::of_pattern(self.raw_field("mode"@, word) as u8),
                operand: le_pair_of(self.field_value("operand"@, word)),
            }
        } else if self.pseudoop == 6 {
            Instruction::IntegerArithmetic {
                bytes: NumberOfBytes::of_pattern(self.raw_field("num bytes"@, word) as u8),
                operation: ArithmeticOperation::of_pattern(
                    self.raw_field("operation"@, word) as u8,
                ),
                sign: SignFlag::of_pattern(self.raw_field("sign"@, word) as u8),
                mode: OperationMode::of_pattern(self.raw_field("mode"@, word) as u8),
                operand: le_pair_of(self.field_value("operand"@, word)),
            }
        } else if self.pseudoop == 7 {
            Instruction::IntegerCompare {
                bytes: NumberOfBytes::of_pattern(self.raw_field("num bytes"@, word) as u8),
                operation: CompareOperation::of_pattern(self.raw_field("operation"@, word) as u8),
                sign: SignFlag::of_pattern(self.raw_field("sign"@, word) as u8),
                mode: OperationMode::of_pattern(self.raw_field("mode"@, word) as u8),
                operand: le_pair_of(self.field_value("operand"@, word)),
            }
        } else if self.pseudoop == 8 {
            Instruction::FloatArithmetic {
                bytes: NumberOfBytes::of_pattern(self.raw_field("num bytes"@, word) as u8),
                operation: ArithmeticOperation::of_pattern(
                    self.raw_field("operation"@, word) as u8,
                ),
            }
        } else if self.pseudoop == 9 {
            Instruction::FloatCompare {
                bytes: NumberOfBytes::of_pattern(self.raw_field("num bytes"@, word) as u8),
                operation: CompareOperation::of_pattern(self.raw_field("operation"@, word) as u8),
            }
        } else if self.pseudoop == 10 {
            Instruction::PushFromRegister {
                control_register: ControlRegister::of_pattern(
                    self.raw_field("register"@, word) as u8,
                ),
            }
        } else if self.pseudoop == 11 {
            Instruction::PopIntoRegister {
                control_register: ControlRegister::of_pattern(
                    self.raw_field("register"@, word) as u8,
                ),
            }
        } else if self.pseudoop == 12 {
            Instruction::Pop {
                bytes: NumberOfBytes::of_pattern(self.raw_field("num bytes"@, word) as u8),
            }
        } else if self.pseudoop == 13 {
            Instruction::StackOffset {
                bytes: self.field_value("num bytes"@, word),
            }
        } else if self.pseudoop == 14 {
            Instruction::Call {
                source: AddressJumpAddressSource::of_pattern(self.raw_field("source"@, word) as u8),
                offset: self.field_value("offset"@, word),
            }
        } else {
            Instruction::Return
        }
    }
}

/// Reads an instruction out of a word by its layout.
pub struct InstructionDecoder<'a> {
    pub layout: &'a BitLayout,
    pub instruction: u32,
}

impl<'a> InstructionDecoder<'a> {
    /// Decodes an instruction that moves data between the stack, memory and the registers.
    fn decode_stack_instruction(&self) -> (instruction: Instruction)
        requires
            self.layout@.wf(),
            self.layout@.decodes(self.instruction),
            self.layout@.pseudoop == 1
                || self.layout@.pseudoop == 2
                || self.layout@.pseudoop == 3
                || self.layout@.pseudoop == 10
                || self.layout@.pseudoop == 11
                || self.layout@.pseudoop == 12
                || self.layout@.pseudoop == 13,
        ensures
            instruction == self.layout@.decoded(self.instruction),
    {
        let pseudoop = self.layout.instruction_pseudoop;
        if pseudoop == 1 {
            let bytes_part = self.layout.get_part("num bytes", self.instruction);
            let lshift_part = self.layout.get_part("lshift", self.instruction);
            let immediate_part = self.layout.get_part("immediate lsb", self.instruction);
            return Instruction::PushImmediate {
                bytes: NumberOfBytes::from_pattern(bytes_part.0 as u8),
                lshift: LeftShift::from_pattern(lshift_part.0 as u8),
                immediate: le_pair_from_u32(immediate_part.0),
            };
        }
        if pseudoop == 2 {
            let bytes_part = self.layout.get_part("num bytes", self.instruction);
            let mode_part = self.layout.get_part("mode", self.instruction);
            let operand_part = self.layout.get_part("operand", self.instruction);
            return Instruction::LoadAddress {
                bytes: NumberOfBytes::from_pattern(bytes_part.0 as u8),
                mode: LoadStoreAddressingMode::from_pattern(mode_part.0 as u8),
                operand: operand_part.1,
            };
        }
        if pseudoop == 3 {
            let bytes_part = self.layout.get_part("num bytes", self.instruction);
            let mode_part = self.layout.get_part("mode", self.instruction);
            let operand_part = self.layout.get_part("operand", self.instruction);
            return Instruction::StoreAddress {
                bytes: NumberOfBytes::from_pattern(bytes_part.0 as u8),
                mode: LoadStoreAddressingMode::from_pattern(mode_part.0 as u8),
                operand: operand_part.1,
            };
        }
        if pseudoop == 10 {
            let control_register_part = self.layout.get_part("register", self.instruction);
            return Instruction::PushFromRegister {
                control_register: ControlRegister::from_pattern(control_register_part.0 as u8),
            };
        }
        if pseudoop == 11 {
            let control_register_part = self.layout.get_part("register", self.instruction);
            return Instruction::PopIntoRegister {
                control_register: ControlRegister::from_pattern(control_register_part.0 as u8),
            };
        }
        if pseudoop == 12 {
            let bytes_part = self.layout.get_part("num bytes", self.instruction);
            return Instruction::Pop {
                bytes: NumberOfBytes::from_pattern(bytes_part.0 as u8),
            };
        }
        if pseudoop == 13 {
            let bytes_part = self.layout.get_part("num bytes", self.instruction);
            return Instruction::StackOffset {
                bytes: bytes_part.1,
            };
        }
        unreached()
    }

    /// Decodes a shift, a bitwise operation, an arithmetic operation or a comparison.
    fn decode_operation(&self) -> (instruction: Instruction)
        requires
            self.layout@.wf(),
            self.layout@.decodes(self.instruction),
            self.layout@.pseudoop == 4
                || self.layout@.pseudoop == 5
                || self.layout@.pseudoop == 6
                || self.layout@.pseudoop == 7
                || self.layout@.pseudoop == 8
                || self.layout@.pseudoop == 9,
        ensures
            instruction == self.layout@.decoded(self.instruction),
    {
        let pseudoop = self.layout.instruction_pseudoop;
        if pseudoop == 4 {
            let bytes_part = self.layout.get_part("num bytes", self.instruction);
            let direction_part = self.layout.get_part("direction", self.instruction);
            let mode_part = self.layout.get_part("mode", self.instruction);
            let sign_part = self.layout.get_part("keep sign", self.instruction);
            let operand_part = self.layout.get_part("operand", self.instruction);
            return Instruction::BitShift {
                bytes: NumberOfBytes::from_pattern(bytes_part.0 as u8),
                direction: ShiftDirection::from_pattern(direction_part.0 as u8),
                mode: OperationMode::from_pattern(mode_part.0 as u8),
                sign: SignFlag::from_pattern(sign_part.0 as u8),
                operand: low_byte(operand_part.1),
            };
        }
        if pseudoop == 5 {
            let bytes_part = self.layout.get_part("num bytes", self.instruction);
            let operation_part = self.layout.get_part("operation", self.instruction);
            let sign_part = self.layout.get_part("sign", self.instruction);
            let mode_part = self.layout.get_part("mode", self.instruction);
            let operand_part = self.layout.get_part("operand", self.instruction);
            return Instruction::Bitwise {
                bytes: NumberOfBytes::from_pattern(bytes_part.0 as u8),
                operation: BitwiseOperation::from_pattern(operation_part.0 as u8),
                sign: SignFlag::from_pattern(sign_part.0 as u8),
                mode: OperationMode::from_pattern(mode_part.0 as u8),
                operand: le_pair_from_u32(operand_part.1),
            };
        }
        if pseudoop == 6 {
            let bytes_part = self.layout.get_part("num bytes", self.instruction);
            let operation_part = self.layout.get_part("operation", self.instruction);
            let sign_part = self.layout.get_part("sign", self.instruction);
            let mode_part = self.layout.get_part("mode", self.instruction);
            let operand_part = self.layout.get_part("operand", self.instruction);
            return Instruction::IntegerArithmetic {
                bytes: NumberOfBytes::from_pattern(bytes_part.0 as u8),
                operation: ArithmeticOperation::from_pattern(operation_part.0 as u8),
                sign: SignFlag::from_pattern(sign_part.0 as u8),
                mode: OperationMode::from_pattern(mode_part.0 as u8),
                operand: le_pair_from_u32(operand_part.1),
            };
        }
        if pseudoop == 7 {
            let bytes_part = self.layout.get_part("num bytes", self.instruction);
            let operation_part = self.layout.get_part("operation", self.instruction);
            let sign_part = self.layout.get_part("sign", self.instruction);
            let mode_part = self.layout.get_part("mode", self.instruction);
            let operand_part = self.layout.get_part("operand", self.instruction);
            return Instruction::IntegerCompare {
                bytes: NumberOfBytes::from_pattern(bytes_part.0 as u8),
                operation: CompareOperation::from_pattern(operation_part.0 as u8),
                sign: SignFlag::from_pattern(sign_part.0 as u8),
                mode: OperationMode::from_pattern(mode_part.0 as u8),
                operand: le_pair_from_u32(operand_part.1),
            };
        }
        if pseudoop == 8 {
            let bytes_part = self.layout.get_part("num bytes", self.instruction);
            let operation_part = self.layout.get_part("operation", self.instruction);
            return Instruction::FloatArithmetic {
                bytes: NumberOfBytes::from_pattern(bytes_part.0 as u8),
                operation: ArithmeticOperation::from_pattern(operation_part.0 as u8),
            };
        }
        if pseudoop == 9 {
            let bytes_part = self.layout.get_part("num bytes", self.instruction);
            let operation_part = self.layout.get_part("operation", self.instruction);
            return Instruction::FloatCompare {
                bytes: NumberOfBytes::from_pattern(bytes_part.0 as u8),
                operation: CompareOperation::from_pattern(operation_part.0 as u8),
            };
        }
        unreached()
    }

    /// Decodes a call, a return or a no-op.
    fn decode_control_flow(&self) -> (instruction: Instruction)
        requires
            self.layout@.wf(),
            self.layout@.decodes(self.instruction),
            self.layout@.pseudoop == 0
                || self.layout@.pseudoop == 14
                || self.layout@.pseudoop == 15,
        ensures
            instruction == self.layout@.decoded(self.instruction),
    {
        let pseudoop = self.layout.instruction_pseudoop;
        if pseudoop == 0 {
            return Instruction::Noop;
        }
        if pseudoop == 14 {
            let source_part = self.layout.get_part("source", self.instruction);
            let offset_part = self.layout.get_part("offset", self.instruction);
            return Instruction::Call {
                source: AddressJumpAddressSource::from_pattern(source_part.0 as u8),
                offset: offset_part.1,
            };
        }
        if pseudoop == 15 {
            return Instruction::Return;
        }
        unreached()
    }

    /// Assembles the instruction that the word stands for.
    pub fn decode(&self) -> (instruction: Instruction)
        requires
            self.layout@.wf(),
            self.layout@.decodes(self.instruction),
        ensures
            instruction == self.layout@.decoded(self.instruction),
    {
        let pseudoop = self.layout.instruction_pseudoop;
        if pseudoop == 0 || pseudoop == 14 || pseudoop == 15 {
            self.decode_control_flow()
        } else if 4 <= pseudoop && pseudoop <= 9 {
            self.decode_operation()
        } else {
            self.decode_stack_instruction()
        }
    }
}

impl LayoutHelper {
    /// Finds the layout of `instruction` by the pseudo-op in its five most
    /// significant bits.
    pub fn begin_decode(&self, instruction: u32) -> (decoder: InstructionDecoder<'_>)
        requires
            self.table@.wf(),
            self.table@.has_pseudoop((instruction >> 27) as u8),
        ensures
            decoder.instruction == instruction,
            decoder.layout@ == self.table@.layout_of_pseudoop((instruction >> 27) as u8),
            decoder.layout@.wf(),
            decoder.layout@.pseudoop == (instruction >> 27) as u8,
    {
        let shifted: u32 = instruction >> 27;
        assert(shifted < 32) by (bit_vector)
            requires
                shifted == instruction >> 27,
        ;
        let pseudo_op: u8 = shifted as u8;
        match self.table.get_by_pseudoop(pseudo_op) {
            Some(layout) => InstructionDecoder { layout, instruction },
            None => unreached(),
        }
    }
}

impl<'a> InstructionDecoder<'a> {
    /// Whether the part `name` of the word can be read, and its bits are
    /// one of the first `count` patterns.
    fn reads_below(&self, name: &str, count: u8) -> (possible: bool)
        requires
            self.layout@.wf(),
        ensures
            possible == self.layout@.reads_below(name@, self.instruction, count),
    {
        if self.layout.reads(name, self.instruction) {
            let (raw, _) = self.layout.get_part(name, self.instruction);
            raw < count as u32
        } else {
            false
        }
    }

    /// Whether the word can be decoded, for the pseudo-ops of one family.
    fn decodes_stack_instruction(&self) -> (possible: bool)
        requires
            self.layout@.wf(),
            self.layout@.pseudoop == 1
                || self.layout@.pseudoop == 2
                || self.layout@.pseudoop == 3
                || self.layout@.pseudoop == 10
                || self.layout@.pseudoop == 11
                || self.layout@.pseudoop == 12
                || self.layout@.pseudoop == 13,
        ensures
            possible == self.layout@.decodes(self.instruction),
    {
        let pseudoop = self.layout.instruction_pseudoop;
        if pseudoop == 1 {
            return self.reads_below("num bytes", 4)
                && self.reads_below("lshift", 4)
                && self.layout.reads("immediate lsb", self.instruction);
        }
        if pseudoop == 2 {
            return self.reads_below("num bytes", 4)
                && self.reads_below("mode", 4)
                && self.layout.reads("operand", self.instruction);
        }
        if pseudoop == 3 {
            return self.reads_below("num bytes", 4)
                && self.reads_below("mode", 4)
                && self.layout.reads("operand", self.instruction);
        }
        if pseudoop == 10 {
            return self.reads_below("register", 3);
        }
        if pseudoop == 11 {
            return self.reads_below("register", 3);
        }
        if pseudoop == 12 {
            return self.reads_below("num bytes", 4);
        }
        if pseudoop == 13 {
            return self.layout.reads("num bytes", self.instruction);
        }
        false
    }

    /// Whether the word can be decoded, for the pseudo-ops of one family.
    fn decodes_operation(&self) -> (possible: bool)
        requires
            self.layout@.wf(),
            self.layout@.pseudoop == 4
                || self.layout@.pseudoop == 5
                || self.layout@.pseudoop == 6
                || self.layout@.pseudoop == 7
                || self.layout@.pseudoop == 8
                || self.layout@.pseudoop == 9,
        ensures
            possible == self.layout@.decodes(self.instruction),
    {
        let pseudoop = self.layout.instruction_pseudoop;
        if pseudoop == 4 {
            return self.reads_below("num bytes", 4)
                && self.reads_below("direction", 2)
                && self.reads_below("mode", 2)
                && self.reads_below("keep sign", 2)
                && self.layout.reads("operand", self.instruction);
        }
        if pseudoop == 5 {
            return self.reads_below("num bytes", 4)
                && self.reads_below("operation", 3)
                && self.reads_below("sign", 2)
                && self.reads_below("mode", 2)
                && self.layout.reads("operand", self.instruction);
        }
        if pseudoop == 6 {
            return self.reads_below("num bytes", 4)
                && self.reads_below("operation", 5)
                && self.reads_below("sign", 2)
                && self.reads_below("mode", 2)
                && self.layout.reads("operand", self.instruction);
        }
        if pseudoop == 7 {
            return self.reads_below("num bytes", 4)
                && self.reads_below("operation", 6)
                && self.reads_below("sign", 2)
                && self.reads_below("mode", 2)
                && self.layout.reads("operand", self.instruction);
        }
        if pseudoop == 8 {
            return self.reads_below("num bytes", 4)
                && self.reads_below("operation", 5);
        }
        if pseudoop == 9 {
            return self.reads_below("num bytes", 4)
                && self.reads_below("operation", 6);
        }
        false
    }

    /// Whether the word can be decoded, for the pseudo-ops of one family.
    fn decodes_control_flow(&self) -> (possible: bool)
        requires
            self.layout@.wf(),
            self.layout@.pseudoop == 0
                || self.layout@.pseudoop == 14
                || self.layout@.pseudoop == 15,
        ensures
            possible == self.layout@.decodes(self.instruction),
    {
        let pseudoop = self.layout.instruction_pseudoop;
        if pseudoop == 0 {
            return true;
        }
        if pseudoop == 14 {
            return self.reads_below("source", 2)
                && self.layout.reads("offset", self.instruction);
        }
        if pseudoop == 15 {
            return true;
        }
        false
    }

    /// Whether the word can be decoded by the layout: `decode` is defined
    /// exactly then.
    pub fn can_decode(&self) -> (possible: bool)
        ensures
            possible == (self.layout@.wf() && self.layout@.decodes(self.instruction)),
    {
        if !self.layout.is_valid() {
            return false;
        }
        let pseudoop = self.layout.instruction_pseudoop;
        if pseudoop == 0 || pseudoop == 14 || pseudoop == 15 {
            self.decodes_control_flow()
        } else if 4 <= pseudoop && pseudoop <= 9 {
            self.decodes_operation()
        } else if pseudoop <= 13 {
            self.decodes_stack_instruction()
        } else {
            false
        }
    }
}

impl LayoutHelper {
    /// Whether the table has the layout called `name`, and the layout takes
    /// the 1 given operand.
    fn accepts1(&self, name: &str, n1: &str, v1: u32) -> (possible: bool)
        requires
            self.table@.wf(),
        ensures
            possible == (self.table@.has_layout(name@) && self.table@.layout(name@).accepts1(
                n1@, v1,
            )),
    {
        match self.table.get(name) {
            Some(layout) => layout.accepts(n1, v1),
            None => false,
        }
    }

    /// Whether the table has the layout called `name`, and the layout takes
    /// the 2 given operands.
    fn accepts2(&self, name: &str, n1: &str, v1: u32, n2: &str, v2: u32) -> (possible: bool)
        requires
            self.table@.wf(),
        ensures
            possible == (self.table@.has_layout(name@) && self.table@.layout(name@).accepts2(
                n1@, v1, n2@, v2,
            )),
    {
        match self.table.get(name) {
            Some(layout) => layout.accepts(n1, v1) && layout.accepts(n2, v2),
            None => false,
        }
    }

    /// Whether the table has the layout called `name`, and the layout takes
    /// the 3 given operands.
    fn accepts3(
        &self,
        name: &str,
        n1: &str,
        v1: u32,
        n2: &str,
        v2: u32,
        n3: &str,
        v3: u32,
    ) -> (possible: bool)
        requires
            self.table@.wf(),
        ensures
            possible == (self.table@.has_layout(name@) && self.table@.layout(name@).accepts3(
                n1@, v1, n2@, v2, n3@, v3,
            )),
    {
        match self.table.get(name) {
            Some(layout) => layout.accepts(n1, v1) && layout.accepts(n2, v2) && layout.accepts(
                n3,
                v3,
            ),
            None => false,
        }
    }

    /// Whether the table has the layout called `name`, and the layout takes
    /// the 5 given operands.
    fn accepts5(
        &self,
        name: &str,
        n1: &str,
        v1: u32,
        n2: &str,
        v2: u32,
        n3: &str,
        v3: u32,
        n4: &str,
        v4: u32,
        n5: &str,
        v5: u32,
    ) -> (possible: bool)
        requires
            self.table@.wf(),
        ensures
            possible == (self.table@.has_layout(name@) && self.table@.layout(name@).accepts5(
                n1@, v1, n2@, v2, n3@, v3, n4@, v4, n5@, v5,
            )),
    {
        match self.table.get(name) {
            Some(layout) => layout.accepts(n1, v1)
                && layout.accepts(n2, v2)
                && layout.accepts(n3, v3)
                && layout.accepts(n4, v4)
                && layout.accepts(n5, v5),
            None => false,
        }
    }

    /// Whether the table can encode the instruction, for the
    /// instructions of one family.
    fn supports_stack_instruction(&self, instruction: &Instruction) -> (possible: bool)
        requires
            self.table@.wf(),
            instruction is StackOffset
                || instruction is PushImmediate
                || instruction is LoadAddress
                || instruction is StoreAddress
                || instruction is PushFromRegister
                || instruction is PopIntoRegister
                || instruction is Pop,
        ensures
            possible == self.table@.supports(*instruction),
    {
        match instruction {
            Instruction::StackOffset { bytes } => self.accepts1(
                "stackoffset",
                "num bytes", *bytes,
            ),
            Instruction::PushImmediate { bytes, lshift, immediate } => self.accepts3(
                "push_imm",
                "num bytes", bytes.get_bytes() as u32,
                "lshift", lshift.get_shift_size() as u32,
                "immediate lsb", le_pair_to_u32(immediate),
            ),
            Instruction::LoadAddress { bytes, mode, operand } => self.accepts3(
                "loadaddr",
                "num bytes", bytes.get_bytes() as u32,
                "mode", mode.get_bit_pattern() as u32,
                "operand", *operand,
            ),
            Instruction::StoreAddress { bytes, mode, operand } => self.accepts3(
                "storeaddr",
                "num bytes", bytes.get_bytes() as u32,
                "mode", mode.get_bit_pattern() as u32,
                "operand", *operand,
            ),
            Instruction::PushFromRegister { control_register } => self.accepts1(
                "push_reg",
                "register", control_register.get_bit_pattern() as u32,
            ),
            Instruction::PopIntoRegister { control_register } => self.accepts1(
                "pop_reg",
                "register", control_register.get_bit_pattern() as u32,
            ),
            Instruction::Pop { bytes } => self.accepts1(
                "pop",
                "num bytes", bytes.get_bytes() as u32,
            ),
            _ => unreached(),
        }
    }

    /// Whether the table can encode the instruction, for the
    /// instructions of one family.
    fn supports_operation(&self, instruction: &Instruction) -> (possible: bool)
        requires
            self.table@.wf(),
            instruction is BitShift
                || instruction is Bitwise
                || instruction is IntegerArithmetic
                || instruction is IntegerCompare
                || instruction is FloatArithmetic
                || instruction is FloatCompare,
        ensures
            possible == self.table@.supports(*instruction),
    {
        match instruction {
            Instruction::BitShift { bytes, direction, mode, sign, operand } => self.accepts5(
                "shift",
                "num bytes", bytes.get_bytes() as u32,
                "direction", direction.get_bit_pattern() as u32,
                "mode", mode.get_bit_pattern() as u32,
                "keep sign", sign.get_bit_pattern() as u32,
                "operand", *operand as u32,
            ),
            Instruction::Bitwise { bytes, operation, sign, mode, operand } => self.accepts5(
                "bitwise",
                "num bytes", bytes.get_bytes() as u32,
                "operation", operation.get_bit_pattern() as u32,
                "mode", mode.get_bit_pattern() as u32,
                "sign", sign.get_bit_pattern() as u32,
                "operand", le_pair_to_u32(operand),
            ),
            Instruction::IntegerArithmetic { bytes, operation, sign, mode, operand } => self.accepts5(
                "integer_binary_op",
                "num bytes", bytes.get_bytes() as u32,
                "operation", operation.get_bit_pattern() as u32,
                "sign", sign.get_bit_pattern() as u32,
                "mode", mode.get_bit_pattern() as u32,
                "operand", le_pair_to_u32(operand),
            ),
            Instruction::IntegerCompare { bytes, operation, sign, mode, operand } => self.accepts5(
                "integer_compare",
                "num bytes", bytes.get_bytes() as u32,
                "operation", operation.get_bit_pattern() as u32,
                "sign", sign.get_bit_pattern() as u32,
                "mode", mode.get_bit_pattern() as u32,
                "operand", le_pair_to_u32(operand),
            ),
            Instruction::FloatArithmetic { bytes, operation } => self.accepts2(
                "float_binary_op",
                "num bytes", bytes.get_bytes() as u32,
                "operation", operation.get_bit_pattern() as u32,
            ),
            Instruction::FloatCompare { bytes, operation } => self.accepts2(
                "float_compare_op",
                "num bytes", bytes.get_bytes() as u32,
                "operation", operation.get_bit_pattern() as u32,
            ),
            _ => unreached(),
        }
    }

    /// Whether the table can encode the instruction, for the
    /// instructions of one family.
    fn supports_control_flow(&self, instruction: &Instruction) -> (possible: bool)
        requires
            self.table@.wf(),
            instruction is Noop
                || instruction is Call
                || instruction is JumpIfZero
                || instruction is JumpIfNotZero
                || instruction is JumpUnconditional
                || instruction is Return
                || instruction is Exit,
        ensures
            possible == self.table@.supports(*instruction),
    {
        match instruction {
            Instruction::Noop => true,
            Instruction::Call { source, offset } => self.accepts2(
                "call",
                "source", source.get_bit_pattern() as u32, "offset", *offset,
            ),
            Instruction::JumpIfZero { source, offset } => self.accepts2(
                "jz",
                "source", source.get_bit_pattern() as u32, "offset", *offset,
            ),
            Instruction::JumpIfNotZero { source, offset } => self.accepts2(
                "jnz",
                "source", source.get_bit_pattern() as u32, "offset", *offset,
            ),
            Instruction::JumpUnconditional { source, offset } => self.accepts2(
                "jmp",
                "source", source.get_bit_pattern() as u32, "offset", *offset,
            ),
            Instruction::Return => self.table.get("return").is_some(),
            Instruction::Exit => self.table.get("exit").is_some(),
            _ => unreached(),
        }
    }

    /// Whether the table can encode the instruction: `encode_instruction`
    /// is defined exactly then.
    pub fn can_encode(&self, instruction: &Instruction) -> (possible: bool)
        requires
            self.table@.wf(),
        ensures
            possible == self.table@.supports(*instruction),
    {
        match instruction {
            Instruction::StackOffset { .. }
            | Instruction::PushImmediate { .. }
            | Instruction::LoadAddress { .. }
            | Instruction::StoreAddress { .. }
            | Instruction::PushFromRegister { .. }
            | Instruction::PopIntoRegister { .. }
            | Instruction::Pop { .. } => self.supports_stack_instruction(instruction),
            Instruction::BitShift { .. }
            | Instruction::Bitwise { .. }
            | Instruction::IntegerArithmetic { .. }
            | Instruction::IntegerCompare { .. }
            | Instruction::FloatArithmetic { .. }
            | Instruction::FloatCompare { .. } => self.supports_operation(instruction),
            _ => self.supports_control_flow(instruction),
        }
    }

    /// Encodes the instruction if the table can encode it.
    pub fn try_encode_instruction(&self, instruction: &Instruction) -> (word: Option<u32>)
        requires
            self.table@.wf(),
        ensures
            word == (if self.table@.supports(*instruction) {
                Some(self.table@.word(*instruction))
            } else {
                None
            }),
    {
        if self.can_encode(instruction) {
            Some(self.encode_instruction(instruction))
        } else {
            None
        }
    }

    /// Decodes the word if the table has a layout for its pseudo-op and
    /// the layout decodes it.
    pub fn try_decode(&self, instruction: u32) -> (decoded: Option<Instruction>)
        requires
            self.table@.wf(),
        ensures
            decoded == (if self.table@.has_pseudoop((instruction >> 27) as u8)
                && self.table@.layout_of_pseudoop((instruction >> 27) as u8).decodes(instruction) {
                Some(self.table@.layout_of_pseudoop((instruction >> 27) as u8).decoded(instruction))
            } else {
                None
            }),
    {
        let shifted: u32 = instruction >> 27;
        assert(shifted < 32) by (bit_vector)
            requires
                shifted == instruction >> 27,
        ;
        if self.table.get_by_pseudoop(shifted as u8).is_none() {
            return None;
        }
        let decoder = self.begin_decode(instruction);
        if decoder.can_decode() {
            Some(decoder.decode())
        } else {
            None
        }
    }
}

impl BitLayoutView {
    /// The bits written for `value` to the part `name`, cut to the part's
    /// length.
    pub open spec fn bits_written(self, name: Seq<char>, value: u32) -> u32 {
        self.part(name).bits_for(value) & low_mask(self.part(name).length)
    }

    /// The bits of `word` below the last part.
    pub open spec fn unused_bits(self, word: u32) -> u32 {
        if self.total_bits() >= 32 {
            0
        } else {
            word & low_mask((32 - self.total_bits()) as u8)
        }
    }

    /// Reading part `j` after a write to part `i`: part `i` reads its old
    /// bits joined with the new ones, every other part is unchanged, and so
    /// is the pseudo-op.
    pub proof fn lemma_write_read(self, word: u32, i: int, bits: u32, j: int)
        requires
            self.wf(),
            0 <= i < self.parts.len(),
            0 <= j < self.parts.len(),
        ensures
            extract(
                word | place(bits, self.start(i), self.parts[i].length),
                self.start(j),
                self.parts[j].length,
            ) == (if i == j {
                extract(word, self.start(i), self.parts[i].length) | (bits & low_mask(
                    self.parts[i].length,
                ))
            } else {
                extract(word, self.start(j), self.parts[j].length)
            }),
            (word | place(bits, self.start(i), self.parts[i].length)) >> 27 == word >> 27,
    {
        self.lemma_part_fits(i);
        self.lemma_part_fits(j);
        assert(self.start(i + 1) == self.start(i) + self.parts[i].length);
        assert(self.start(j + 1) == self.start(j) + self.parts[j].length);
        if i < j {
            self.lemma_start_monotonic(i + 1, j);
        } else if j < i {
            self.lemma_start_monotonic(j + 1, i);
        }
        lemma_read_after_write(
            word,
            bits,
            self.start(i),
            self.parts[i].length,
            self.start(j),
            self.parts[j].length,
        );
    }

    /// Writing a part of a word that has no bits there yet, then reading
    /// any part by its name.
    pub proof fn lemma_with_field(self, word: u32, name: Seq<char>, value: u32, other: Seq<char>)
        requires
            self.wf(),
            self.has_part(name),
            self.has_part(other),
        ensures
            self.with_field(word, name, value) >> 27 == word >> 27,
            self.index_of(other) != self.index_of(name) ==> self.raw_field(
                other,
                self.with_field(word, name, value),
            ) == self.raw_field(other, word),
            self.index_of(other) == self.index_of(name) ==> self.raw_field(
                other,
                self.with_field(word, name, value),
            ) == self.raw_field(name, word) | self.bits_written(name, value),
    {
        let i = self.index_of(name);
        let j = self.index_of(other);
        self.lemma_first_named(name);
        self.lemma_first_named(other);
        self.lemma_write_read(word, i, self.parts[i].bits_for(value), j);
    }

    /// The word that holds only the pseudo-op reads zero in every part.
    pub proof fn lemma_header_reads(self, name: Seq<char>)
        requires
            self.wf(),
            self.has_part(name),
        ensures
            self.header() >> 27 == self.pseudoop,
            self.raw_field(name, self.header()) == 0,
    {
        let i = self.index_of(name);
        self.lemma_first_named(name);
        self.lemma_part_fits(i);
        lemma_header(self.pseudoop, self.start(i), self.parts[i].length);
    }

    /// Writing to part `i` the bits that `word` holds there extends the
    /// upper bits of `word` by that part.
    pub proof fn lemma_rebuild_part(self, word: u32, name: Seq<char>, value: u32, i: int)
        requires
            self.wf(),
            self.first_named(name, i),
            self.bits_written(name, value) == self.raw_field(name, word),
        ensures
            self.with_field(upper_bits(word, self.start(i)), name, value) == upper_bits(
                word,
                self.start(i + 1),
            ),
    {
        self.lemma_index_of(name, i);
        self.lemma_part_fits(i);
        let start = self.start(i);
        let length = self.parts[i].length;
        let bits = self.parts[i].bits_for(value);
        lemma_upper_bits_step(word, start, length);
        lemma_fits(bits & low_mask(length), word, start, length);
        lemma_place_cut(bits, start, length);
    }

    /// The upper bits of a word at the two ends of a layout: its pseudo-op
    /// at the top, and the whole word when nothing lies below the parts.
    pub proof fn lemma_rebuild_ends(self, word: u32)
        requires
            self.wf(),
            word >> 27 == self.pseudoop,
            self.unused_bits(word) == 0,
        ensures
            upper_bits(word, self.start(0)) == self.header(),
            upper_bits(word, self.total_bits()) == word,
    {
        self.lemma_start_monotonic(0, self.parts.len() as int);
        lemma_upper_bits_ends(word, self.total_bits());
    }
}

/// Cutting bits to a slot's length twice is the same as cutting them once.
pub proof fn lemma_place_cut(bits: u32, start: int, length: u8)
    ensures
        place(bits & low_mask(length), start, length) == place(bits, start, length),
{
    let m = low_mask(length);
    assert((bits & m) & m == bits & m) by (bit_vector);
}

impl BitLayoutView {
    /// After the 1 operand of a word have been written to different
    /// parts, every part reads the bits written to it and the pseudo-op is
    /// in place.
    pub proof fn lemma_word1_reads(self, n1: Seq<char>, v1: u32)
        requires
            self.wf(),
            self.has_part(n1),

        ensures
            self.word1(n1, v1) >> 27 == self.pseudoop,
            self.raw_field(n1, self.word1(n1, v1)) == self.bits_written(n1, v1),
    {
        let w0 = self.header();
        let w1 = self.with_field(w0, n1, v1);
        self.lemma_header_reads(n1);
        self.lemma_with_field(w0, n1, v1, n1);
        assert(forall|x: u32| 0u32 | x == x) by (bit_vector);
    }

    /// A word of a layout of 1 part with nothing below them is rebuilt
    /// by writing to every part, in their order, the bits that the word
    /// holds there.
    pub proof fn lemma_word1_rebuilds(self, word: u32, n1: Seq<char>, v1: u32)
        requires
            self.wf(),
            self.parts.len() == 1,
            word >> 27 == self.pseudoop,
            self.unused_bits(word) == 0,
            self.first_named(n1, 0),
            self.bits_written(n1, v1) == self.raw_field(n1, word),
        ensures
            self.word1(n1, v1) == word,
    {
        self.lemma_rebuild_ends(word);
        self.lemma_rebuild_part(word, n1, v1, 0);
    }

    /// After the 2 operands of a word have been written to different
    /// parts, every part reads the bits written to it and the pseudo-op is
    /// in place.
    pub proof fn lemma_word2_reads(self, n1: Seq<char>, v1: u32, n2: Seq<char>, v2: u32)
        requires
            self.wf(),
            self.has_part(n1),
            self.has_part(n2),
            self.index_of(n1) != self.index_of(n2),
        ensures
            self.word2(n1, v1, n2, v2) >> 27 == self.pseudoop,
            self.raw_field(n1, self.word2(n1, v1, n2, v2)) == self.bits_written(n1, v1),
            self.raw_field(n2, self.word2(n1, v1, n2, v2)) == self.bits_written(n2, v2),
    {
        let w0 = self.header();
        let w1 = self.with_field(w0, n1, v1);
        let w2 = self.with_field(w1, n2, v2);
        self.lemma_header_reads(n1);
        self.lemma_header_reads(n2);
        self.lemma_with_field(w0, n1, v1, n1);
        self.lemma_with_field(w0, n1, v1, n2);
        self.lemma_with_field(w1, n2, v2, n1);
        self.lemma_with_field(w1, n2, v2, n2);
        assert(forall|x: u32| 0u32 | x == x) by (bit_vector);
    }

    /// A word of a layout of 2 parts with nothing below them is rebuilt
    /// by writing to every part, in their order, the bits that the word
    /// holds there.
    pub proof fn lemma_word2_rebuilds(
        self,
        word: u32,
        n1: Seq<char>,
        v1: u32,
        n2: Seq<char>,
        v2: u32,
    )
        requires
            self.wf(),
            self.parts.len() == 2,
            word >> 27 == self.pseudoop,
            self.unused_bits(word) == 0,
            self.first_named(n1, 0),
            self.first_named(n2, 1),
            self.bits_written(n1, v1) == self.raw_field(n1, word),
            self.bits_written(n2, v2) == self.raw_field(n2, word),
        ensures
            self.word2(n1, v1, n2, v2) == word,
    {
        self.lemma_rebuild_ends(word);
        self.lemma_rebuild_part(word, n1, v1, 0);
        self.lemma_rebuild_part(word, n2, v2, 1);
    }

    /// After the 3 operands of a word have been written to different
    /// parts, every part reads the bits written to it and the pseudo-op is
    /// in place.
    pub proof fn lemma_word3_reads(
        self,
        n1: Seq<char>,
        v1: u32,
        n2: Seq<char>,
        v2: u32,
        n3: Seq<char>,
        v3: u32,
    )
        requires
            self.wf(),
            self.has_part(n1),
            self.has_part(n2),
            self.has_part(n3),
            self.index_of(n1) != self.index_of(n2),
            self.index_of(n1) != self.index_of(n3),
            self.index_of(n2) != self.index_of(n3),
        ensures
            self.word3(n1, v1, n2, v2, n3, v3) >> 27 == self.pseudoop,
            self.raw_field(n1, self.word3(n1, v1, n2, v2, n3, v3)) == self.bits_written(n1, v1),
            self.raw_field(n2, self.word3(n1, v1, n2, v2, n3, v3)) == self.bits_written(n2, v2),
            self.raw_field(n3, self.word3(n1, v1, n2, v2, n3, v3)) == self.bits_written(n3, v3),
    {
        let w0 = self.header();
        let w1 = self.with_field(w0, n1, v1);
        let w2 = self.with_field(w1, n2, v2);
        let w3 = self.with_field(w2, n3, v3);
        self.lemma_header_reads(n1);
        self.lemma_header_reads(n2);
        self.lemma_header_reads(n3);
        self.lemma_with_field(w0, n1, v1, n1);
        self.lemma_with_field(w0, n1, v1, n2);
        self.lemma_with_field(w0, n1, v1, n3);
        self.lemma_with_field(w1, n2, v2, n1);
        self.lemma_with_field(w1, n2, v2, n2);
        self.lemma_with_field(w1, n2, v2, n3);
        self.lemma_with_field(w2, n3, v3, n1);
        self.lemma_with_field(w2, n3, v3, n2);
        self.lemma_with_field(w2, n3, v3, n3);
        assert(forall|x: u32| 0u32 | x == x) by (bit_vector);
    }

    /// A word of a layout of 3 parts with nothing below them is rebuilt
    /// by writing to every part, in their order, the bits that the word
    /// holds there.
    pub proof fn lemma_word3_rebuilds(
        self,
        word: u32,
        n1: Seq<char>,
        v1: u32,
        n2: Seq<char>,
        v2: u32,
        n3: Seq<char>,
        v3: u32,
    )
        requires
            self.wf(),
            self.parts.len() == 3,
            word >> 27 == self.pseudoop,
            self.unused_bits(word) == 0,
            self.first_named(n1, 0),
            self.first_named(n2, 1),
            self.first_named(n3, 2),
            self.bits_written(n1, v1) == self.raw_field(n1, word),
            self.bits_written(n2, v2) == self.raw_field(n2, word),
            self.bits_written(n3, v3) == self.raw_field(n3, word),
        ensures
            self.word3(n1, v1, n2, v2, n3, v3) == word,
    {
        self.lemma_rebuild_ends(word);
        self.lemma_rebuild_part(word, n1, v1, 0);
        self.lemma_rebuild_part(word, n2, v2, 1);
        self.lemma_rebuild_part(word, n3, v3, 2);
    }

    /// After the 5 operands of a word have been written to different
    /// parts, every part reads the bits written to it and the pseudo-op is
    /// in place.
    pub proof fn lemma_word5_reads(
        self,
        n1: Seq<char>,
        v1: u32,
        n2: Seq<char>,
        v2: u32,
        n3: Seq<char>,
        v3: u32,
        n4: Seq<char>,
        v4: u32,
        n5: Seq<char>,
        v5: u32,
    )
        requires
            self.wf(),
            self.has_part(n1),
            self.has_part(n2),
            self.has_part(n3),
            self.has_part(n4),
            self.has_part(n5),
            self.index_of(n1) != self.index_of(n2),
            self.index_of(n1) != self.index_of(n3),
            self.index_of(n1) != self.index_of(n4),
            self.index_of(n1) != self.index_of(n5),
            self.index_of(n2) != self.index_of(n3),
            self.index_of(n2) != self.index_of(n4),
            self.index_of(n2) != self.index_of(n5),
            self.index_of(n3) != self.index_of(n4),
            self.index_of(n3) != self.index_of(n5),
            self.index_of(n4) != self.index_of(n5),
        ensures
            self.word5(n1, v1, n2, v2, n3, v3, n4, v4, n5, v5) >> 27 == self.pseudoop,
            self.raw_field(n1, self.word5(n1, v1, n2, v2, n3, v3, n4, v4, n5, v5))
                == self.bits_written(n1, v1),
            self.raw_field(n2, self.word5(n1, v1, n2, v2, n3, v3, n4, v4, n5, v5))
                == self.bits_written(n2, v2),
            self.raw_field(n3, self.word5(n1, v1, n2, v2, n3, v3, n4, v4, n5, v5))
                == self.bits_written(n3, v3),
            self.raw_field(n4, self.word5(n1, v1, n2, v2, n3, v3, n4, v4, n5, v5))
                == self.bits_written(n4, v4),
            self.raw_field(n5, self.word5(n1, v1, n2, v2, n3, v3, n4, v4, n5, v5))
                == self.bits_written(n5, v5),
    {
        let w0 = self.header();
        let w1 = self.with_field(w0, n1, v1);
        let w2 = self.with_field(w1, n2, v2);
        let w3 = self.with_field(w2, n3, v3);
        let w4 = self.with_field(w3, n4, v4);
        let w5 = self.with_field(w4, n5, v5);
        self.lemma_header_reads(n1);
        self.lemma_header_reads(n2);
        self.lemma_header_reads(n3);
        self.lemma_header_reads(n4);
        self.lemma_header_reads(n5);
        self.lemma_with_field(w0, n1, v1, n1);
        self.lemma_with_field(w0, n1, v1, n2);
        self.lemma_with_field(w0, n1, v1, n3);
        self.lemma_with_field(w0, n1, v1, n4);
        self.lemma_with_field(w0, n1, v1, n5);
        self.lemma_with_field(w1, n2, v2, n1);
        self.lemma_with_field(w1, n2, v2, n2);
        self.lemma_with_field(w1, n2, v2, n3);
        self.lemma_with_field(w1, n2, v2, n4);
        self.lemma_with_field(w1, n2, v2, n5);
        self.lemma_with_field(w2, n3, v3, n1);
        self.lemma_with_field(w2, n3, v3, n2);
        self.lemma_with_field(w2, n3, v3, n3);
        self.lemma_with_field(w2, n3, v3, n4);
        self.lemma_with_field(w2, n3, v3, n5);
        self.lemma_with_field(w3, n4, v4, n1);
        self.lemma_with_field(w3, n4, v4, n2);
        self.lemma_with_field(w3, n4, v4, n3);
        self.lemma_with_field(w3, n4, v4, n4);
        self.lemma_with_field(w3, n4, v4, n5);
        self.lemma_with_field(w4, n5, v5, n1);
        self.lemma_with_field(w4, n5, v5, n2);
        self.lemma_with_field(w4, n5, v5, n3);
        self.lemma_with_field(w4, n5, v5, n4);
        self.lemma_with_field(w4, n5, v5, n5);
        assert(forall|x: u32| 0u32 | x == x) by (bit_vector);
    }

    /// A word of a layout of 5 parts with nothing below them is rebuilt
    /// by writing to every part, in their order, the bits that the word
    /// holds there.
    pub proof fn lemma_word5_rebuilds(
        self,
        word: u32,
        n1: Seq<char>,
        v1: u32,
        n2: Seq<char>,
        v2: u32,
        n3: Seq<char>,
        v3: u32,
        n4: Seq<char>,
        v4: u32,
        n5: Seq<char>,
        v5: u32,
    )
        requires
            self.wf(),
            self.parts.len() == 5,
            word >> 27 == self.pseudoop,
            self.unused_bits(word) == 0,
            self.first_named(n1, 0),
            self.first_named(n2, 1),
            self.first_named(n3, 2),
            self.first_named(n4, 3),
            self.first_named(n5, 4),
            self.bits_written(n1, v1) == self.raw_field(n1, word),
            self.bits_written(n2, v2) == self.raw_field(n2, word),
            self.bits_written(n3, v3) == self.raw_field(n3, word),
            self.bits_written(n4, v4) == self.raw_field(n4, word),
            self.bits_written(n5, v5) == self.raw_field(n5, word),
        ensures
            self.word5(n1, v1, n2, v2, n3, v3, n4, v4, n5, v5) == word,
    {
        self.lemma_rebuild_ends(word);
        self.lemma_rebuild_part(word, n1, v1, 0);
        self.lemma_rebuild_part(word, n2, v2, 1);
        self.lemma_rebuild_part(word, n3, v3, 2);
        self.lemma_rebuild_part(word, n4, v4, 3);
        self.lemma_rebuild_part(word, n5, v5, 4);
    }

}

} // verus!
