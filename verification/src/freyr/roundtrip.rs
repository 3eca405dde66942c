//! The round trip of the standard codec: decoding the word of an
//! instruction gives the instruction back, and encoding the instruction
//! of a word gives the word back.
use vstd::prelude::*;
use crate::freyr::encoder::{le_pair_of, le_pair_value, stackoffset_word};
use crate::freyr::vm::bits::{lemma_fits, lemma_header, lemma_low_masks};
use crate::freyr::vm::instructions::extract;
use crate::freyr::vm::instructions::{
    is_standard, lemma_standard_lookup, lemma_standard_pseudoops, standard_layout,
    AddressJumpAddressSource, ArithmeticOperation, BitLayoutView, BitwiseOperation,
    CompareOperation, ControlRegister, Instruction, InstructionTableView, LeftShift,
    LoadStoreAddressingMode, NumberOfBytes, OperationMode, ShiftDirection, SignFlag,
};

verus! {

impl InstructionTableView {
    /// `word` can be decoded: the table has a layout for its pseudo-op,
    /// and that layout decodes it.
    pub open spec fn decodes(self, word: u32) -> bool {
        self.has_pseudoop((word >> 27) as u8) && self.layout_of_pseudoop(
            (word >> 27) as u8,
        ).decodes(word)
    }

    /// The instruction that `word` stands for.
    pub open spec fn instruction(self, word: u32) -> Instruction {
        self.layout_of_pseudoop((word >> 27) as u8).decoded(word)
    }

    /// The bits of `word` below the parts of its layout.
    pub open spec fn unused_bits(self, word: u32) -> u32 {
        self.layout_of_pseudoop((word >> 27) as u8).unused_bits(word)
    }
}

impl Instruction {
    /// The standard table encodes the instruction without loss: it has a
    /// layout for it, and the integer operands fit their parts (27 bits for
    /// a stack offset, 23 for an address, 26 for a call target).
    pub open spec fn fits_standard(self) -> bool {
        match self {
            Instruction::StackOffset { bytes } => bytes <= 0x7ff_ffff,
            Instruction::LoadAddress { operand, .. } => operand <= 0x7f_ffff,
            Instruction::StoreAddress { operand, .. } => operand <= 0x7f_ffff,
            Instruction::Call { offset, .. } => offset <= 0x3ff_ffff,
            Instruction::JumpIfZero { .. } => false,
            Instruction::JumpIfNotZero { .. } => false,
            Instruction::JumpUnconditional { .. } => false,
            Instruction::Exit => false,
            _ => true,
        }
    }
}

/// A pair of bytes and the 16-bit integer it stands for determine each
/// other.
proof fn lemma_le_pair(bytes: [u8; 2], value: u32)
    ensures
        le_pair_value(bytes) <= 0xffff,
        le_pair_of(le_pair_value(bytes)) == bytes,
        value <= 0xffff ==> le_pair_value(le_pair_of(value)) == value,
{
    let b0: u8 = bytes[0];
    let b1: u8 = bytes[1];
    let v: u32 = (b0 as u32) | ((b1 as u32) << 8);
    assert(v <= 0xffff && (v & 0xff) as u8 == b0 && ((v >> 8) & 0xff) as u8 == b1) by (bit_vector)
        requires
            v == (b0 as u32) | ((b1 as u32) << 8),
    ;
    assert(le_pair_of(v) =~= bytes);
    let c0: u8 = (value & 0xff) as u8;
    let c1: u8 = ((value >> 8) & 0xff) as u8;
    assert(value <= 0xffff ==> (c0 as u32) | ((c1 as u32) << 8) == value) by (bit_vector)
        requires
            c0 == (value & 0xff) as u8,
            c1 == ((value >> 8) & 0xff) as u8,
    ;
}

/// A byte is the low byte of itself.
proof fn lemma_low_byte(byte: u8)
    ensures
        byte as u32 <= 0xff,
        ((byte as u32) & 0xff) as u8 == byte,
{
    assert(((byte as u32) & 0xff) as u8 == byte) by (bit_vector);
}

/// Where the parts of the `push_imm` layout lie.
proof fn lemma_parts_push_immediate()
    ensures
        standard_layout(1).first_named("num bytes"@, 0),
        standard_layout(1).index_of("num bytes"@) == 0,
        standard_layout(1).has_part("num bytes"@),
        standard_layout(1).start(0) == 5,
        standard_layout(1).parts[0].length == 2,
        standard_layout(1).first_named("lshift"@, 1),
        standard_layout(1).index_of("lshift"@) == 1,
        standard_layout(1).has_part("lshift"@),
        standard_layout(1).start(1) == 7,
        standard_layout(1).parts[1].length == 2,
        standard_layout(1).first_named("immediate lsb"@, 2),
        standard_layout(1).index_of("immediate lsb"@) == 2,
        standard_layout(1).has_part("immediate lsb"@),
        standard_layout(1).start(2) == 9,
        standard_layout(1).parts[2].length == 16,
        standard_layout(1).parts.len() == 3,
        standard_layout(1).total_bits() == 25,
{
    reveal_strlit("num bytes");
    assert("num bytes"@.len() == 9 && "num bytes"@[0] == 'n');
    reveal_strlit("lshift");
    assert("lshift"@.len() == 6 && "lshift"@[0] == 'l');
    reveal_strlit("immediate lsb");
    assert("immediate lsb"@.len() == 13 && "immediate lsb"@[0] == 'i');
    reveal_with_fuel(BitLayoutView::start, 6);
    standard_layout(1).lemma_index_of("num bytes"@, 0);
    standard_layout(1).lemma_index_of("lshift"@, 1);
    standard_layout(1).lemma_index_of("immediate lsb"@, 2);
}

/// Where the parts of the `loadaddr` layout lie.
proof fn lemma_parts_load_address()
    ensures
        standard_layout(2).first_named("num bytes"@, 0),
        standard_layout(2).index_of("num bytes"@) == 0,
        standard_layout(2).has_part("num bytes"@),
        standard_layout(2).start(0) == 5,
        standard_layout(2).parts[0].length == 2,
        standard_layout(2).first_named("mode"@, 1),
        standard_layout(2).index_of("mode"@) == 1,
        standard_layout(2).has_part("mode"@),
        standard_layout(2).start(1) == 7,
        standard_layout(2).parts[1].length == 2,
        standard_layout(2).first_named("operand"@, 2),
        standard_layout(2).index_of("operand"@) == 2,
        standard_layout(2).has_part("operand"@),
        standard_layout(2).start(2) == 9,
        standard_layout(2).parts[2].length == 23,
        standard_layout(2).parts.len() == 3,
        standard_layout(2).total_bits() == 32,
{
    reveal_strlit("num bytes");
    assert("num bytes"@.len() == 9 && "num bytes"@[0] == 'n');
    reveal_strlit("mode");
    assert("mode"@.len() == 4 && "mode"@[0] == 'm');
    reveal_strlit("operand");
    assert("operand"@.len() == 7 && "operand"@[0] == 'o');
    reveal_with_fuel(BitLayoutView::start, 6);
    standard_layout(2).lemma_index_of("num bytes"@, 0);
    standard_layout(2).lemma_index_of("mode"@, 1);
    standard_layout(2).lemma_index_of("operand"@, 2);
}

/// Where the parts of the `storeaddr` layout lie.
proof fn lemma_parts_store_address()
    ensures
        standard_layout(3).first_named("num bytes"@, 0),
        standard_layout(3).index_of("num bytes"@) == 0,
        standard_layout(3).has_part("num bytes"@),
        standard_layout(3).start(0) == 5,
        standard_layout(3).parts[0].length == 2,
        standard_layout(3).first_named("mode"@, 1),
        standard_layout(3).index_of("mode"@) == 1,
        standard_layout(3).has_part("mode"@),
        standard_layout(3).start(1) == 7,
        standard_layout(3).parts[1].length == 2,
        standard_layout(3).first_named("operand"@, 2),
        standard_layout(3).index_of("operand"@) == 2,
        standard_layout(3).has_part("operand"@),
        standard_layout(3).start(2) == 9,
        standard_layout(3).parts[2].length == 23,
        standard_layout(3).parts.len() == 3,
        standard_layout(3).total_bits() == 32,
{
    reveal_strlit("num bytes");
    assert("num bytes"@.len() == 9 && "num bytes"@[0] == 'n');
    reveal_strlit("mode");
    assert("mode"@.len() == 4 && "mode"@[0] == 'm');
    reveal_strlit("operand");
    assert("operand"@.len() == 7 && "operand"@[0] == 'o');
    reveal_with_fuel(BitLayoutView::start, 6);
    standard_layout(3).lemma_index_of("num bytes"@, 0);
    standard_layout(3).lemma_index_of("mode"@, 1);
    standard_layout(3).lemma_index_of("operand"@, 2);
}

/// Where the parts of the `shift` layout lie.
proof fn lemma_parts_bit_shift()
    ensures
        standard_layout(4).first_named("num bytes"@, 0),
        standard_layout(4).index_of("num bytes"@) == 0,
        standard_layout(4).has_part("num bytes"@),
        standard_layout(4).start(0) == 5,
        standard_layout(4).parts[0].length == 2,
        standard_layout(4).first_named("direction"@, 1),
        standard_layout(4).index_of("direction"@) == 1,
        standard_layout(4).has_part("direction"@),
        standard_layout(4).start(1) == 7,
        standard_layout(4).parts[1].length == 1,
        standard_layout(4).first_named("mode"@, 2),
        standard_layout(4).index_of("mode"@) == 2,
        standard_layout(4).has_part("mode"@),
        standard_layout(4).start(2) == 8,
        standard_layout(4).parts[2].length == 1,
        standard_layout(4).first_named("keep sign"@, 3),
        standard_layout(4).index_of("keep sign"@) == 3,
        standard_layout(4).has_part("keep sign"@),
        standard_layout(4).start(3) == 9,
        standard_layout(4).parts[3].length == 1,
        standard_layout(4).first_named("operand"@, 4),
        standard_layout(4).index_of("operand"@) == 4,
        standard_layout(4).has_part("operand"@),
        standard_layout(4).start(4) == 10,
        standard_layout(4).parts[4].length == 8,
        standard_layout(4).parts.len() == 5,
        standard_layout(4).total_bits() == 18,
{
    reveal_strlit("num bytes");
    assert("num bytes"@.len() == 9 && "num bytes"@[0] == 'n');
    reveal_strlit("direction");
    assert("direction"@.len() == 9 && "direction"@[0] == 'd');
    reveal_strlit("mode");
    assert("mode"@.len() == 4 && "mode"@[0] == 'm');
    reveal_strlit("keep sign");
    assert("keep sign"@.len() == 9 && "keep sign"@[0] == 'k');
    reveal_strlit("operand");
    assert("operand"@.len() == 7 && "operand"@[0] == 'o');
    reveal_with_fuel(BitLayoutView::start, 6);
    standard_layout(4).lemma_index_of("num bytes"@, 0);
    standard_layout(4).lemma_index_of("direction"@, 1);
    standard_layout(4).lemma_index_of("mode"@, 2);
    standard_layout(4).lemma_index_of("keep sign"@, 3);
    standard_layout(4).lemma_index_of("operand"@, 4);
}

/// Where the parts of the `bitwise` layout lie.
proof fn lemma_parts_bitwise()
    ensures
        standard_layout(5).first_named("num bytes"@, 0),
        standard_layout(5).index_of("num bytes"@) == 0,
        standard_layout(5).has_part("num bytes"@),
        standard_layout(5).start(0) == 5,
        standard_layout(5).parts[0].length == 2,
        standard_layout(5).first_named("operation"@, 1),
        standard_layout(5).index_of("operation"@) == 1,
        standard_layout(5).has_part("operation"@),
        standard_layout(5).start(1) == 7,
        standard_layout(5).parts[1].length == 2,
        standard_layout(5).first_named("mode"@, 2),
        standard_layout(5).index_of("mode"@) == 2,
        standard_layout(5).has_part("mode"@),
        standard_layout(5).start(2) == 9,
        standard_layout(5).parts[2].length == 1,
        standard_layout(5).first_named("sign"@, 3),
        standard_layout(5).index_of("sign"@) == 3,
        standard_layout(5).has_part("sign"@),
        standard_layout(5).start(3) == 10,
        standard_layout(5).parts[3].length == 1,
        standard_layout(5).first_named("operand"@, 4),
        standard_layout(5).index_of("operand"@) == 4,
        standard_layout(5).has_part("operand"@),
        standard_layout(5).start(4) == 11,
        standard_layout(5).parts[4].length == 16,
        standard_layout(5).parts.len() == 5,
        standard_layout(5).total_bits() == 27,
{
    reveal_strlit("num bytes");
    assert("num bytes"@.len() == 9 && "num bytes"@[0] == 'n');
    reveal_strlit("operation");
    assert("operation"@.len() == 9 && "operation"@[0] == 'o');
    reveal_strlit("mode");
    assert("mode"@.len() == 4 && "mode"@[0] == 'm');
    reveal_strlit("sign");
    assert("sign"@.len() == 4 && "sign"@[0] == 's');
    reveal_strlit("operand");
    assert("operand"@.len() == 7 && "operand"@[0] == 'o');
    reveal_with_fuel(BitLayoutView::start, 6);
    standard_layout(5).lemma_index_of("num bytes"@, 0);
    standard_layout(5).lemma_index_of("operation"@, 1);
    standard_layout(5).lemma_index_of("mode"@, 2);
    standard_layout(5).lemma_index_of("sign"@, 3);
    standard_layout(5).lemma_index_of("operand"@, 4);
}

/// Where the parts of the `integer_binary_op` layout lie.
proof fn lemma_parts_integer_arithmetic()
    ensures
        standard_layout(6).first_named("num bytes"@, 0),
        standard_layout(6).index_of("num bytes"@) == 0,
        standard_layout(6).has_part("num bytes"@),
        standard_layout(6).start(0) == 5,
        standard_layout(6).parts[0].length == 2,
        standard_layout(6).first_named("operation"@, 1),
        standard_layout(6).index_of("operation"@) == 1,
        standard_layout(6).has_part("operation"@),
        standard_layout(6).start(1) == 7,
        standard_layout(6).parts[1].length == 3,
        standard_layout(6).first_named("sign"@, 2),
        standard_layout(6).index_of("sign"@) == 2,
        standard_layout(6).has_part("sign"@),
        standard_layout(6).start(2) == 10,
        standard_layout(6).parts[2].length == 1,
        standard_layout(6).first_named("mode"@, 3),
        standard_layout(6).index_of("mode"@) == 3,
        standard_layout(6).has_part("mode"@),
        standard_layout(6).start(3) == 11,
        standard_layout(6).parts[3].length == 1,
        standard_layout(6).first_named("operand"@, 4),
        standard_layout(6).index_of("operand"@) == 4,
        standard_layout(6).has_part("operand"@),
        standard_layout(6).start(4) == 12,
        standard_layout(6).parts[4].length == 16,
        standard_layout(6).parts.len() == 5,
        standard_layout(6).total_bits() == 28,
{
    reveal_strlit("num bytes");
    assert("num bytes"@.len() == 9 && "num bytes"@[0] == 'n');
    reveal_strlit("operation");
    assert("operation"@.len() == 9 && "operation"@[0] == 'o');
    reveal_strlit("sign");
    assert("sign"@.len() == 4 && "sign"@[0] == 's');
    reveal_strlit("mode");
    assert("mode"@.len() == 4 && "mode"@[0] == 'm');
    reveal_strlit("operand");
    assert("operand"@.len() == 7 && "operand"@[0] == 'o');
    reveal_with_fuel(BitLayoutView::start, 6);
    standard_layout(6).lemma_index_of("num bytes"@, 0);
    standard_layout(6).lemma_index_of("operation"@, 1);
    standard_layout(6).lemma_index_of("sign"@, 2);
    standard_layout(6).lemma_index_of("mode"@, 3);
    standard_layout(6).lemma_index_of("operand"@, 4);
}

/// Where the parts of the `integer_compare` layout lie.
proof fn lemma_parts_integer_compare()
    ensures
        standard_layout(7).first_named("num bytes"@, 0),
        standard_layout(7).index_of("num bytes"@) == 0,
        standard_layout(7).has_part("num bytes"@),
        standard_layout(7).start(0) == 5,
        standard_layout(7).parts[0].length == 2,
        standard_layout(7).first_named("operation"@, 1),
        standard_layout(7).index_of("operation"@) == 1,
        standard_layout(7).has_part("operation"@),
        standard_layout(7).start(1) == 7,
        standard_layout(7).parts[1].length == 3,
        standard_layout(7).first_named("sign"@, 2),
        standard_layout(7).index_of("sign"@) == 2,
        standard_layout(7).has_part("sign"@),
        standard_layout(7).start(2) == 10,
        standard_layout(7).parts[2].length == 1,
        standard_layout(7).first_named("mode"@, 3),
        standard_layout(7).index_of("mode"@) == 3,
        standard_layout(7).has_part("mode"@),
        standard_layout(7).start(3) == 11,
        standard_layout(7).parts[3].length == 1,
        standard_layout(7).first_named("operand"@, 4),
        standard_layout(7).index_of("operand"@) == 4,
        standard_layout(7).has_part("operand"@),
        standard_layout(7).start(4) == 12,
        standard_layout(7).parts[4].length == 16,
        standard_layout(7).parts.len() == 5,
        standard_layout(7).total_bits() == 28,
{
    reveal_strlit("num bytes");
    assert("num bytes"@.len() == 9 && "num bytes"@[0] == 'n');
    reveal_strlit("operation");
    assert("operation"@.len() == 9 && "operation"@[0] == 'o');
    reveal_strlit("sign");
    assert("sign"@.len() == 4 && "sign"@[0] == 's');
    reveal_strlit("mode");
    assert("mode"@.len() == 4 && "mode"@[0] == 'm');
    reveal_strlit("operand");
    assert("operand"@.len() == 7 && "operand"@[0] == 'o');
    reveal_with_fuel(BitLayoutView::start, 6);
    standard_layout(7).lemma_index_of("num bytes"@, 0);
    standard_layout(7).lemma_index_of("operation"@, 1);
    standard_layout(7).lemma_index_of("sign"@, 2);
    standard_layout(7).lemma_index_of("mode"@, 3);
    standard_layout(7).lemma_index_of("operand"@, 4);
}

/// Where the parts of the `float_binary_op` layout lie.
proof fn lemma_parts_float_arithmetic()
    ensures
        standard_layout(8).first_named("num bytes"@, 0),
        standard_layout(8).index_of("num bytes"@) == 0,
        standard_layout(8).has_part("num bytes"@),
        standard_layout(8).start(0) == 5,
        standard_layout(8).parts[0].length == 2,
        standard_layout(8).first_named("operation"@, 1),
        standard_layout(8).index_of("operation"@) == 1,
        standard_layout(8).has_part("operation"@),
        standard_layout(8).start(1) == 7,
        standard_layout(8).parts[1].length == 3,
        standard_layout(8).parts.len() == 2,
        standard_layout(8).total_bits() == 10,
{
    reveal_strlit("num bytes");
    assert("num bytes"@.len() == 9 && "num bytes"@[0] == 'n');
    reveal_strlit("operation");
    assert("operation"@.len() == 9 && "operation"@[0] == 'o');
    reveal_with_fuel(BitLayoutView::start, 6);
    standard_layout(8).lemma_index_of("num bytes"@, 0);
    standard_layout(8).lemma_index_of("operation"@, 1);
}

/// Where the parts of the `float_compare_op` layout lie.
proof fn lemma_parts_float_compare()
    ensures
        standard_layout(9).first_named("num bytes"@, 0),
        standard_layout(9).index_of("num bytes"@) == 0,
        standard_layout(9).has_part("num bytes"@),
        standard_layout(9).start(0) == 5,
        standard_layout(9).parts[0].length == 2,
        standard_layout(9).first_named("operation"@, 1),
        standard_layout(9).index_of("operation"@) == 1,
        standard_layout(9).has_part("operation"@),
        standard_layout(9).start(1) == 7,
        standard_layout(9).parts[1].length == 3,
        standard_layout(9).parts.len() == 2,
        standard_layout(9).total_bits() == 10,
{
    reveal_strlit("num bytes");
    assert("num bytes"@.len() == 9 && "num bytes"@[0] == 'n');
    reveal_strlit("operation");
    assert("operation"@.len() == 9 && "operation"@[0] == 'o');
    reveal_with_fuel(BitLayoutView::start, 6);
    standard_layout(9).lemma_index_of("num bytes"@, 0);
    standard_layout(9).lemma_index_of("operation"@, 1);
}

/// Where the parts of the `push_reg` layout lie.
proof fn lemma_parts_push_from_register()
    ensures
        standard_layout(10).first_named("register"@, 0),
        standard_layout(10).index_of("register"@) == 0,
        standard_layout(10).has_part("register"@),
        standard_layout(10).start(0) == 5,
        standard_layout(10).parts[0].length == 2,
        standard_layout(10).parts.len() == 1,
        standard_layout(10).total_bits() == 7,
{
    reveal_strlit("register");
    assert("register"@.len() == 8 && "register"@[0] == 'r');
    reveal_with_fuel(BitLayoutView::start, 6);
    standard_layout(10).lemma_index_of("register"@, 0);
}

/// Where the parts of the `pop_reg` layout lie.
proof fn lemma_parts_pop_into_register()
    ensures
        standard_layout(11).first_named("register"@, 0),
        standard_layout(11).index_of("register"@) == 0,
        standard_layout(11).has_part("register"@),
        standard_layout(11).start(0) == 5,
        standard_layout(11).parts[0].length == 2,
        standard_layout(11).parts.len() == 1,
        standard_layout(11).total_bits() == 7,
{
    reveal_strlit("register");
    assert("register"@.len() == 8 && "register"@[0] == 'r');
    reveal_with_fuel(BitLayoutView::start, 6);
    standard_layout(11).lemma_index_of("register"@, 0);
}

/// Where the parts of the `pop` layout lie.
proof fn lemma_parts_pop()
    ensures
        standard_layout(12).first_named("num bytes"@, 0),
        standard_layout(12).index_of("num bytes"@) == 0,
        standard_layout(12).has_part("num bytes"@),
        standard_layout(12).start(0) == 5,
        standard_layout(12).parts[0].length == 2,
        standard_layout(12).parts.len() == 1,
        standard_layout(12).total_bits() == 7,
{
    reveal_strlit("num bytes");
    assert("num bytes"@.len() == 9 && "num bytes"@[0] == 'n');
    reveal_with_fuel(BitLayoutView::start, 6);
    standard_layout(12).lemma_index_of("num bytes"@, 0);
}

/// Where the parts of the `stackoffset` layout lie.
proof fn lemma_parts_stack_offset()
    ensures
        standard_layout(13).first_named("num bytes"@, 0),
        standard_layout(13).index_of("num bytes"@) == 0,
        standard_layout(13).has_part("num bytes"@),
        standard_layout(13).start(0) == 5,
        standard_layout(13).parts[0].length == 27,
        standard_layout(13).parts.len() == 1,
        standard_layout(13).total_bits() == 32,
{
    reveal_strlit("num bytes");
    assert("num bytes"@.len() == 9 && "num bytes"@[0] == 'n');
    reveal_with_fuel(BitLayoutView::start, 6);
    standard_layout(13).lemma_index_of("num bytes"@, 0);
}

/// Where the parts of the `call` layout lie.
proof fn lemma_parts_call()
    ensures
        standard_layout(14).first_named("source"@, 0),
        standard_layout(14).index_of("source"@) == 0,
        standard_layout(14).has_part("source"@),
        standard_layout(14).start(0) == 5,
        standard_layout(14).parts[0].length == 1,
        standard_layout(14).first_named("offset"@, 1),
        standard_layout(14).index_of("offset"@) == 1,
        standard_layout(14).has_part("offset"@),
        standard_layout(14).start(1) == 6,
        standard_layout(14).parts[1].length == 26,
        standard_layout(14).parts.len() == 2,
        standard_layout(14).total_bits() == 32,
{
    reveal_strlit("source");
    assert("source"@.len() == 6 && "source"@[0] == 's');
    reveal_strlit("offset");
    assert("offset"@.len() == 6 && "offset"@[0] == 'o');
    reveal_with_fuel(BitLayoutView::start, 6);
    standard_layout(14).lemma_index_of("source"@, 0);
    standard_layout(14).lemma_index_of("offset"@, 1);
}

/// `Noop`: the word of the instruction decodes to the instruction.
proof fn lemma_forward_noop(table: InstructionTableView)
    requires
        is_standard(table),
    ensures
        table.supports(Instruction::Noop),
        table.decodes(table.word(Instruction::Noop)),
        table.instruction(table.word(Instruction::Noop)) == Instruction::Noop,
{
    let layout = standard_layout(0);
    lemma_standard_lookup(table, 0);
    lemma_low_masks();
    lemma_header(0, 5, 0);
    assert(0u32 >> 27 == 0) by (bit_vector);
}

/// `PushImmediate`: the word of the instruction decodes to the instruction.
proof fn lemma_forward_push_immediate(
    table: InstructionTableView,
    bytes: NumberOfBytes,
    lshift: LeftShift,
    immediate: [u8; 2],
)
    requires
        is_standard(table),
    ensures
        table.supports((Instruction::PushImmediate { bytes, lshift, immediate })),
        table.decodes(table.word((Instruction::PushImmediate { bytes, lshift, immediate }))),
        table.instruction(table.word((Instruction::PushImmediate { bytes, lshift, immediate })))
            == (Instruction::PushImmediate { bytes, lshift, immediate }),
{
    let layout = standard_layout(1);
    lemma_standard_lookup(table, 1);
    lemma_low_masks();
    lemma_parts_push_immediate();
    layout.parts[0].lemma_number_of_bytes_part(bytes);
    assert(NumberOfBytes::of_pattern(bytes.pattern()) == bytes);
    lemma_fits(bytes.pattern() as u32, 0, 5, 2);
    assert(layout.bits_written("num bytes"@, bytes.bytes() as u32) == bytes.pattern() as u32);
    layout.parts[1].lemma_left_shift_part(lshift);
    assert(LeftShift::of_pattern(lshift.pattern()) == lshift);
    lemma_fits(lshift.pattern() as u32, 0, 7, 2);
    assert(layout.bits_written("lshift"@, lshift.shift_size() as u32) == lshift.pattern() as u32);
    lemma_le_pair(immediate, 0);
    lemma_fits(le_pair_value(immediate), 0, 9, 16);
    assert(layout.bits_written("immediate lsb"@, le_pair_value(immediate)) == le_pair_value(immediate));
    layout.lemma_word3_reads(
        "num bytes"@,
        bytes.bytes() as u32,
        "lshift"@,
        lshift.shift_size() as u32,
        "immediate lsb"@,
        le_pair_value(immediate),
    );
    let word = layout.word3(
        "num bytes"@,
        bytes.bytes() as u32,
        "lshift"@,
        lshift.shift_size() as u32,
        "immediate lsb"@,
        le_pair_value(immediate),
    );
    assert(table.word((Instruction::PushImmediate { bytes, lshift, immediate })) == word);
    assert((word >> 27) as u8 == 1);
    assert(layout.raw_field("num bytes"@, word) == bytes.pattern() as u32);
    assert(layout.reads("num bytes"@, word));
    assert(layout.raw_field("lshift"@, word) == lshift.pattern() as u32);
    assert(layout.reads("lshift"@, word));
    assert(layout.raw_field("immediate lsb"@, word) == le_pair_value(immediate));
    assert(layout.reads("immediate lsb"@, word));
    assert(layout.decodes(word));
    assert(layout.decoded(word) == (Instruction::PushImmediate { bytes, lshift, immediate }));
}

/// `LoadAddress`: the word of the instruction decodes to the instruction.
proof fn lemma_forward_load_address(
    table: InstructionTableView,
    bytes: NumberOfBytes,
    mode: LoadStoreAddressingMode,
    operand: u32,
)
    requires
        is_standard(table),
        operand <= 0x7f_ffff,
    ensures
        table.supports((Instruction::LoadAddress { bytes, mode, operand })),
        table.decodes(table.word((Instruction::LoadAddress { bytes, mode, operand }))),
        table.instruction(table.word((Instruction::LoadAddress { bytes, mode, operand })))
            == (Instruction::LoadAddress { bytes, mode, operand }),
{
    let layout = standard_layout(2);
    lemma_standard_lookup(table, 2);
    lemma_low_masks();
    lemma_parts_load_address();
    layout.parts[0].lemma_number_of_bytes_part(bytes);
    assert(NumberOfBytes::of_pattern(bytes.pattern()) == bytes);
    lemma_fits(bytes.pattern() as u32, 0, 5, 2);
    assert(layout.bits_written("num bytes"@, bytes.bytes() as u32) == bytes.pattern() as u32);
    layout.parts[1].lemma_plain_part(4, mode.pattern() as u32);
    assert(LoadStoreAddressingMode::of_pattern(mode.pattern()) == mode);
    lemma_fits(mode.pattern() as u32, 0, 7, 2);
    assert(layout.bits_written("mode"@, mode.pattern() as u32) == mode.pattern() as u32);
    lemma_fits(operand, 0, 9, 23);
    assert(layout.bits_written("operand"@, operand) == operand);
    layout.lemma_word3_reads(
        "num bytes"@,
        bytes.bytes() as u32,
        "mode"@,
        mode.pattern() as u32,
        "operand"@,
        operand,
    );
    let word = layout.word3(
        "num bytes"@,
        bytes.bytes() as u32,
        "mode"@,
        mode.pattern() as u32,
        "operand"@,
        operand,
    );
    assert(table.word((Instruction::LoadAddress { bytes, mode, operand })) == word);
    assert((word >> 27) as u8 == 2);
    assert(layout.raw_field("num bytes"@, word) == bytes.pattern() as u32);
    assert(layout.reads("num bytes"@, word));
    assert(layout.raw_field("mode"@, word) == mode.pattern() as u32);
    assert(layout.reads("mode"@, word));
    assert(layout.raw_field("operand"@, word) == operand);
    assert(layout.reads("operand"@, word));
    assert(layout.decodes(word));
    assert(layout.decoded(word) == (Instruction::LoadAddress { bytes, mode, operand }));
}

/// `StoreAddress`: the word of the instruction decodes to the instruction.
proof fn lemma_forward_store_address(
    table: InstructionTableView,
    bytes: NumberOfBytes,
    mode: LoadStoreAddressingMode,
    operand: u32,
)
    requires
        is_standard(table),
        operand <= 0x7f_ffff,
    ensures
        table.supports((Instruction::StoreAddress { bytes, mode, operand })),
        table.decodes(table.word((Instruction::StoreAddress { bytes, mode, operand }))),
        table.instruction(table.word((Instruction::StoreAddress { bytes, mode, operand })))
            == (Instruction::StoreAddress { bytes, mode, operand }),
{
    let layout = standard_layout(3);
    lemma_standard_lookup(table, 3);
    lemma_low_masks();
    lemma_parts_store_address();
    layout.parts[0].lemma_number_of_bytes_part(bytes);
    assert(NumberOfBytes::of_pattern(bytes.pattern()) == bytes);
    lemma_fits(bytes.pattern() as u32, 0, 5, 2);
    assert(layout.bits_written("num bytes"@, bytes.bytes() as u32) == bytes.pattern() as u32);
    layout.parts[1].lemma_plain_part(4, mode.pattern() as u32);
    assert(LoadStoreAddressingMode::of_pattern(mode.pattern()) == mode);
    lemma_fits(mode.pattern() as u32, 0, 7, 2);
    assert(layout.bits_written("mode"@, mode.pattern() as u32) == mode.pattern() as u32);
    lemma_fits(operand, 0, 9, 23);
    assert(layout.bits_written("operand"@, operand) == operand);
    layout.lemma_word3_reads(
        "num bytes"@,
        bytes.bytes() as u32,
        "mode"@,
        mode.pattern() as u32,
        "operand"@,
        operand,
    );
    let word = layout.word3(
        "num bytes"@,
        bytes.bytes() as u32,
        "mode"@,
        mode.pattern() as u32,
        "operand"@,
        operand,
    );
    assert(table.word((Instruction::StoreAddress { bytes, mode, operand })) == word);
    assert((word >> 27) as u8 == 3);
    assert(layout.raw_field("num bytes"@, word) == bytes.pattern() as u32);
    assert(layout.reads("num bytes"@, word));
    assert(layout.raw_field("mode"@, word) == mode.pattern() as u32);
    assert(layout.reads("mode"@, word));
    assert(layout.raw_field("operand"@, word) == operand);
    assert(layout.reads("operand"@, word));
    assert(layout.decodes(word));
    assert(layout.decoded(word) == (Instruction::StoreAddress { bytes, mode, operand }));
}

/// `BitShift`: the word of the instruction decodes to the instruction.
proof fn lemma_forward_bit_shift(
    table: InstructionTableView,
    bytes: NumberOfBytes,
    direction: ShiftDirection,
    mode: OperationMode,
    sign: SignFlag,
    operand: u8,
)
    requires
        is_standard(table),
    ensures
        table.supports((Instruction::BitShift { bytes, direction, mode, sign, operand })),
        table.decodes(
            table.word((Instruction::BitShift { bytes, direction, mode, sign, operand })),
        ),
        table.instruction(table.word((Instruction::BitShift { bytes, direction, mode, sign, operand })))
            == (Instruction::BitShift { bytes, direction, mode, sign, operand }),
{
    let layout = standard_layout(4);
    lemma_standard_lookup(table, 4);
    lemma_low_masks();
    lemma_parts_bit_shift();
    layout.parts[0].lemma_number_of_bytes_part(bytes);
    assert(NumberOfBytes::of_pattern(bytes.pattern()) == bytes);
    lemma_fits(bytes.pattern() as u32, 0, 5, 2);
    assert(layout.bits_written("num bytes"@, bytes.bytes() as u32) == bytes.pattern() as u32);
    layout.parts[1].lemma_plain_part(2, direction.pattern() as u32);
    assert(ShiftDirection::of_pattern(direction.pattern()) == direction);
    lemma_fits(direction.pattern() as u32, 0, 7, 1);
    assert(layout.bits_written("direction"@, direction.pattern() as u32) == direction.pattern() as u32);
    layout.parts[2].lemma_plain_part(2, mode.pattern() as u32);
    assert(OperationMode::of_pattern(mode.pattern()) == mode);
    lemma_fits(mode.pattern() as u32, 0, 8, 1);
    assert(layout.bits_written("mode"@, mode.pattern() as u32) == mode.pattern() as u32);
    layout.parts[3].lemma_plain_part(2, sign.pattern() as u32);
    assert(SignFlag::of_pattern(sign.pattern()) == sign);
    lemma_fits(sign.pattern() as u32, 0, 9, 1);
    assert(layout.bits_written("keep sign"@, sign.pattern() as u32) == sign.pattern() as u32);
    lemma_low_byte(operand);
    lemma_fits(operand as u32, 0, 10, 8);
    assert(layout.bits_written("operand"@, operand as u32) == operand as u32);
    layout.lemma_word5_reads(
        "num bytes"@,
        bytes.bytes() as u32,
        "direction"@,
        direction.pattern() as u32,
        "mode"@,
        mode.pattern() as u32,
        "keep sign"@,
        sign.pattern() as u32,
        "operand"@,
        operand as u32,
    );
    let word = layout.word5(
        "num bytes"@,
        bytes.bytes() as u32,
        "direction"@,
        direction.pattern() as u32,
        "mode"@,
        mode.pattern() as u32,
        "keep sign"@,
        sign.pattern() as u32,
        "operand"@,
        operand as u32,
    );
    assert(table.word((Instruction::BitShift { bytes, direction, mode, sign, operand })) == word);
    assert((word >> 27) as u8 == 4);
    assert(layout.raw_field("num bytes"@, word) == bytes.pattern() as u32);
    assert(layout.reads("num bytes"@, word));
    assert(layout.raw_field("direction"@, word) == direction.pattern() as u32);
    assert(layout.reads("direction"@, word));
    assert(layout.raw_field("mode"@, word) == mode.pattern() as u32);
    assert(layout.reads("mode"@, word));
    assert(layout.raw_field("keep sign"@, word) == sign.pattern() as u32);
    assert(layout.reads("keep sign"@, word));
    assert(layout.raw_field("operand"@, word) == operand as u32);
    assert(layout.reads("operand"@, word));
    assert(layout.decodes(word));
    assert(layout.decoded(word) == (Instruction::BitShift { bytes, direction, mode, sign, operand }));
}

/// `Bitwise`: the word of the instruction decodes to the instruction.
proof fn lemma_forward_bitwise(
    table: InstructionTableView,
    bytes: NumberOfBytes,
    operation: BitwiseOperation,
    mode: OperationMode,
    sign: SignFlag,
    operand: [u8; 2],
)
    requires
        is_standard(table),
    ensures
        table.supports((Instruction::Bitwise { bytes, operation, mode, sign, operand })),
        table.decodes(table.word((Instruction::Bitwise { bytes, operation, mode, sign, operand }))),
        table.instruction(table.word((Instruction::Bitwise { bytes, operation, mode, sign, operand })))
            == (Instruction::Bitwise { bytes, operation, mode, sign, operand }),
{
    let layout = standard_layout(5);
    lemma_standard_lookup(table, 5);
    lemma_low_masks();
    lemma_parts_bitwise();
    layout.parts[0].lemma_number_of_bytes_part(bytes);
    assert(NumberOfBytes::of_pattern(bytes.pattern()) == bytes);
    lemma_fits(bytes.pattern() as u32, 0, 5, 2);
    assert(layout.bits_written("num bytes"@, bytes.bytes() as u32) == bytes.pattern() as u32);
    layout.parts[1].lemma_plain_part(3, operation.pattern() as u32);
    assert(BitwiseOperation::of_pattern(operation.pattern()) == operation);
    lemma_fits(operation.pattern() as u32, 0, 7, 2);
    assert(layout.bits_written("operation"@, operation.pattern() as u32) == operation.pattern() as u32);
    layout.parts[2].lemma_plain_part(2, mode.pattern() as u32);
    assert(OperationMode::of_pattern(mode.pattern()) == mode);
    lemma_fits(mode.pattern() as u32, 0, 9, 1);
    assert(layout.bits_written("mode"@, mode.pattern() as u32) == mode.pattern() as u32);
    layout.parts[3].lemma_plain_part(2, sign.pattern() as u32);
    assert(SignFlag::of_pattern(sign.pattern()) == sign);
    lemma_fits(sign.pattern() as u32, 0, 10, 1);
    assert(layout.bits_written("sign"@, sign.pattern() as u32) == sign.pattern() as u32);
    lemma_le_pair(operand, 0);
    lemma_fits(le_pair_value(operand), 0, 11, 16);
    assert(layout.bits_written("operand"@, le_pair_value(operand)) == le_pair_value(operand));
    layout.lemma_word5_reads(
        "num bytes"@,
        bytes.bytes() as u32,
        "operation"@,
        operation.pattern() as u32,
        "mode"@,
        mode.pattern() as u32,
        "sign"@,
        sign.pattern() as u32,
        "operand"@,
        le_pair_value(operand),
    );
    let word = layout.word5(
        "num bytes"@,
        bytes.bytes() as u32,
        "operation"@,
        operation.pattern() as u32,
        "mode"@,
        mode.pattern() as u32,
        "sign"@,
        sign.pattern() as u32,
        "operand"@,
        le_pair_value(operand),
    );
    assert(table.word((Instruction::Bitwise { bytes, operation, mode, sign, operand })) == word);
    assert((word >> 27) as u8 == 5);
    assert(layout.raw_field("num bytes"@, word) == bytes.pattern() as u32);
    assert(layout.reads("num bytes"@, word));
    assert(layout.raw_field("operation"@, word) == operation.pattern() as u32);
    assert(layout.reads("operation"@, word));
    assert(layout.raw_field("mode"@, word) == mode.pattern() as u32);
    assert(layout.reads("mode"@, word));
    assert(layout.raw_field("sign"@, word) == sign.pattern() as u32);
    assert(layout.reads("sign"@, word));
    assert(layout.raw_field("operand"@, word) == le_pair_value(operand));
    assert(layout.reads("operand"@, word));
    assert(layout.decodes(word));
    assert(layout.decoded(word) == (Instruction::Bitwise { bytes, operation, mode, sign, operand }));
}

/// `IntegerArithmetic`: the word of the instruction decodes to the instruction.
proof fn lemma_forward_integer_arithmetic(
    table: InstructionTableView,
    bytes: NumberOfBytes,
    operation: ArithmeticOperation,
    sign: SignFlag,
    mode: OperationMode,
    operand: [u8; 2],
)
    requires
        is_standard(table),
    ensures
        table.supports((Instruction::IntegerArithmetic { bytes, operation, sign, mode, operand })),
        table.decodes(
            table.word((Instruction::IntegerArithmetic { bytes, operation, sign, mode, operand })),
        ),
        table.instruction(table.word((Instruction::IntegerArithmetic { bytes, operation, sign, mode, operand })))
            == (Instruction::IntegerArithmetic { bytes, operation, sign, mode, operand }),
{
    let layout = standard_layout(6);
    lemma_standard_lookup(table, 6);
    lemma_low_masks();
    lemma_parts_integer_arithmetic();
    layout.parts[0].lemma_number_of_bytes_part(bytes);
    assert(NumberOfBytes::of_pattern(bytes.pattern()) == bytes);
    lemma_fits(bytes.pattern() as u32, 0, 5, 2);
    assert(layout.bits_written("num bytes"@, bytes.bytes() as u32) == bytes.pattern() as u32);
    layout.parts[1].lemma_plain_part(5, operation.pattern() as u32);
    assert(ArithmeticOperation::of_pattern(operation.pattern()) == operation);
    lemma_fits(operation.pattern() as u32, 0, 7, 3);
    assert(layout.bits_written("operation"@, operation.pattern() as u32) == operation.pattern() as u32);
    layout.parts[2].lemma_plain_part(2, sign.pattern() as u32);
    assert(SignFlag::of_pattern(sign.pattern()) == sign);
    lemma_fits(sign.pattern() as u32, 0, 10, 1);
    assert(layout.bits_written("sign"@, sign.pattern() as u32) == sign.pattern() as u32);
    layout.parts[3].lemma_plain_part(2, mode.pattern() as u32);
    assert(OperationMode::of_pattern(mode.pattern()) == mode);
    lemma_fits(mode.pattern() as u32, 0, 11, 1);
    assert(layout.bits_written("mode"@, mode.pattern() as u32) == mode.pattern() as u32);
    lemma_le_pair(operand, 0);
    lemma_fits(le_pair_value(operand), 0, 12, 16);
    assert(layout.bits_written("operand"@, le_pair_value(operand)) == le_pair_value(operand));
    layout.lemma_word5_reads(
        "num bytes"@,
        bytes.bytes() as u32,
        "operation"@,
        operation.pattern() as u32,
        "sign"@,
        sign.pattern() as u32,
        "mode"@,
        mode.pattern() as u32,
        "operand"@,
        le_pair_value(operand),
    );
    let word = layout.word5(
        "num bytes"@,
        bytes.bytes() as u32,
        "operation"@,
        operation.pattern() as u32,
        "sign"@,
        sign.pattern() as u32,
        "mode"@,
        mode.pattern() as u32,
        "operand"@,
        le_pair_value(operand),
    );
    assert(table.word((Instruction::IntegerArithmetic { bytes, operation, sign, mode, operand })) == word);
    assert((word >> 27) as u8 == 6);
    assert(layout.raw_field("num bytes"@, word) == bytes.pattern() as u32);
    assert(layout.reads("num bytes"@, word));
    assert(layout.raw_field("operation"@, word) == operation.pattern() as u32);
    assert(layout.reads("operation"@, word));
    assert(layout.raw_field("sign"@, word) == sign.pattern() as u32);
    assert(layout.reads("sign"@, word));
    assert(layout.raw_field("mode"@, word) == mode.pattern() as u32);
    assert(layout.reads("mode"@, word));
    assert(layout.raw_field("operand"@, word) == le_pair_value(operand));
    assert(layout.reads("operand"@, word));
    assert(layout.decodes(word));
    assert(layout.decoded(word) == (Instruction::IntegerArithmetic { bytes, operation, sign, mode, operand }));
}

/// `IntegerCompare`: the word of the instruction decodes to the instruction.
proof fn lemma_forward_integer_compare(
    table: InstructionTableView,
    bytes: NumberOfBytes,
    operation: CompareOperation,
    sign: SignFlag,
    mode: OperationMode,
    operand: [u8; 2],
)
    requires
        is_standard(table),
    ensures
        table.supports((Instruction::IntegerCompare { bytes, operation, sign, mode, operand })),
        table.decodes(
            table.word((Instruction::IntegerCompare { bytes, operation, sign, mode, operand })),
        ),
        table.instruction(table.word((Instruction::IntegerCompare { bytes, operation, sign, mode, operand })))
            == (Instruction::IntegerCompare { bytes, operation, sign, mode, operand }),
{
    let layout = standard_layout(7);
    lemma_standard_lookup(table, 7);
    lemma_low_masks();
    lemma_parts_integer_compare();
    layout.parts[0].lemma_number_of_bytes_part(bytes);
    assert(NumberOfBytes::of_pattern(bytes.pattern()) == bytes);
    lemma_fits(bytes.pattern() as u32, 0, 5, 2);
    assert(layout.bits_written("num bytes"@, bytes.bytes() as u32) == bytes.pattern() as u32);
    layout.parts[1].lemma_plain_part(6, operation.pattern() as u32);
    assert(CompareOperation::of_pattern(operation.pattern()) == operation);
    lemma_fits(operation.pattern() as u32, 0, 7, 3);
    assert(layout.bits_written("operation"@, operation.pattern() as u32) == operation.pattern() as u32);
    layout.parts[2].lemma_plain_part(2, sign.pattern() as u32);
    assert(SignFlag::of_pattern(sign.pattern()) == sign);
    lemma_fits(sign.pattern() as u32, 0, 10, 1);
    assert(layout.bits_written("sign"@, sign.pattern() as u32) == sign.pattern() as u32);
    layout.parts[3].lemma_plain_part(2, mode.pattern() as u32);
    assert(OperationMode::of_pattern(mode.pattern()) == mode);
    lemma_fits(mode.pattern() as u32, 0, 11, 1);
    assert(layout.bits_written("mode"@, mode.pattern() as u32) == mode.pattern() as u32);
    lemma_le_pair(operand, 0);
    lemma_fits(le_pair_value(operand), 0, 12, 16);
    assert(layout.bits_written("operand"@, le_pair_value(operand)) == le_pair_value(operand));
    layout.lemma_word5_reads(
        "num bytes"@,
        bytes.bytes() as u32,
        "operation"@,
        operation.pattern() as u32,
        "sign"@,
        sign.pattern() as u32,
        "mode"@,
        mode.pattern() as u32,
        "operand"@,
        le_pair_value(operand),
    );
    let word = layout.word5(
        "num bytes"@,
        bytes.bytes() as u32,
        "operation"@,
        operation.pattern() as u32,
        "sign"@,
        sign.pattern() as u32,
        "mode"@,
        mode.pattern() as u32,
        "operand"@,
        le_pair_value(operand),
    );
    assert(table.word((Instruction::IntegerCompare { bytes, operation, sign, mode, operand })) == word);
    assert((word >> 27) as u8 == 7);
    assert(layout.raw_field("num bytes"@, word) == bytes.pattern() as u32);
    assert(layout.reads("num bytes"@, word));
    assert(layout.raw_field("operation"@, word) == operation.pattern() as u32);
    assert(layout.reads("operation"@, word));
    assert(layout.raw_field("sign"@, word) == sign.pattern() as u32);
    assert(layout.reads("sign"@, word));
    assert(layout.raw_field("mode"@, word) == mode.pattern() as u32);
    assert(layout.reads("mode"@, word));
    assert(layout.raw_field("operand"@, word) == le_pair_value(operand));
    assert(layout.reads("operand"@, word));
    assert(layout.decodes(word));
    assert(layout.decoded(word) == (Instruction::IntegerCompare { bytes, operation, sign, mode, operand }));
}

/// `FloatArithmetic`: the word of the instruction decodes to the instruction.
proof fn lemma_forward_float_arithmetic(
    table: InstructionTableView,
    bytes: NumberOfBytes,
    operation: ArithmeticOperation,
)
    requires
        is_standard(table),
    ensures
        table.supports((Instruction::FloatArithmetic { bytes, operation })),
        table.decodes(table.word((Instruction::FloatArithmetic { bytes, operation }))),
        table.instruction(table.word((Instruction::FloatArithmetic { bytes, operation })))
            == (Instruction::FloatArithmetic { bytes, operation }),
{
    let layout = standard_layout(8);
    lemma_standard_lookup(table, 8);
    lemma_low_masks();
    lemma_parts_float_arithmetic();
    layout.parts[0].lemma_number_of_bytes_part(bytes);
    assert(NumberOfBytes::of_pattern(bytes.pattern()) == bytes);
    lemma_fits(bytes.pattern() as u32, 0, 5, 2);
    assert(layout.bits_written("num bytes"@, bytes.bytes() as u32) == bytes.pattern() as u32);
    layout.parts[1].lemma_plain_part(5, operation.pattern() as u32);
    assert(ArithmeticOperation::of_pattern(operation.pattern()) == operation);
    lemma_fits(operation.pattern() as u32, 0, 7, 3);
    assert(layout.bits_written("operation"@, operation.pattern() as u32) == operation.pattern() as u32);
    layout.lemma_word2_reads(
        "num bytes"@,
        bytes.bytes() as u32,
        "operation"@,
        operation.pattern() as u32,
    );
    let word = layout.word2(
        "num bytes"@,
        bytes.bytes() as u32,
        "operation"@,
        operation.pattern() as u32,
    );
    assert(table.word((Instruction::FloatArithmetic { bytes, operation })) == word);
    assert((word >> 27) as u8 == 8);
    assert(layout.raw_field("num bytes"@, word) == bytes.pattern() as u32);
    assert(layout.reads("num bytes"@, word));
    assert(layout.raw_field("operation"@, word) == operation.pattern() as u32);
    assert(layout.reads("operation"@, word));
    assert(layout.decodes(word));
    assert(layout.decoded(word) == (Instruction::FloatArithmetic { bytes, operation }));
}

/// `FloatCompare`: the word of the instruction decodes to the instruction.
proof fn lemma_forward_float_compare(
    table: InstructionTableView,
    bytes: NumberOfBytes,
    operation: CompareOperation,
)
    requires
        is_standard(table),
    ensures
        table.supports((Instruction::FloatCompare { bytes, operation })),
        table.decodes(table.word((Instruction::FloatCompare { bytes, operation }))),
        table.instruction(table.word((Instruction::FloatCompare { bytes, operation })))
            == (Instruction::FloatCompare { bytes, operation }),
{
    let layout = standard_layout(9);
    lemma_standard_lookup(table, 9);
    lemma_low_masks();
    lemma_parts_float_compare();
    layout.parts[0].lemma_number_of_bytes_part(bytes);
    assert(NumberOfBytes::of_pattern(bytes.pattern()) == bytes);
    lemma_fits(bytes.pattern() as u32, 0, 5, 2);
    assert(layout.bits_written("num bytes"@, bytes.bytes() as u32) == bytes.pattern() as u32);
    layout.parts[1].lemma_plain_part(6, operation.pattern() as u32);
    assert(CompareOperation::of_pattern(operation.pattern()) == operation);
    lemma_fits(operation.pattern() as u32, 0, 7, 3);
    assert(layout.bits_written("operation"@, operation.pattern() as u32) == operation.pattern() as u32);
    layout.lemma_word2_reads(
        "num bytes"@,
        bytes.bytes() as u32,
        "operation"@,
        operation.pattern() as u32,
    );
    let word = layout.word2(
        "num bytes"@,
        bytes.bytes() as u32,
        "operation"@,
        operation.pattern() as u32,
    );
    assert(table.word((Instruction::FloatCompare { bytes, operation })) == word);
    assert((word >> 27) as u8 == 9);
    assert(layout.raw_field("num bytes"@, word) == bytes.pattern() as u32);
    assert(layout.reads("num bytes"@, word));
    assert(layout.raw_field("operation"@, word) == operation.pattern() as u32);
    assert(layout.reads("operation"@, word));
    assert(layout.decodes(word));
    assert(layout.decoded(word) == (Instruction::FloatCompare { bytes, operation }));
}

/// `PushFromRegister`: the word of the instruction decodes to the instruction.
proof fn lemma_forward_push_from_register(
    table: InstructionTableView,
    control_register: ControlRegister,
)
    requires
        is_standard(table),
    ensures
        table.supports((Instruction::PushFromRegister { control_register })),
        table.decodes(table.word((Instruction::PushFromRegister { control_register }))),
        table.instruction(table.word((Instruction::PushFromRegister { control_register })))
            == (Instruction::PushFromRegister { control_register }),
{
    let layout = standard_layout(10);
    lemma_standard_lookup(table, 10);
    lemma_low_masks();
    lemma_parts_push_from_register();
    layout.parts[0].lemma_plain_part(3, control_register.pattern() as u32);
    assert(ControlRegister::of_pattern(control_register.pattern()) == control_register);
    lemma_fits(control_register.pattern() as u32, 0, 5, 2);
    assert(layout.bits_written("register"@, control_register.pattern() as u32) == control_register.pattern() as u32);
    layout.lemma_word1_reads("register"@, control_register.pattern() as u32);
    let word = layout.word1("register"@, control_register.pattern() as u32);
    assert(table.word((Instruction::PushFromRegister { control_register })) == word);
    assert((word >> 27) as u8 == 10);
    assert(layout.raw_field("register"@, word) == control_register.pattern() as u32);
    assert(layout.reads("register"@, word));
    assert(layout.decodes(word));
    assert(layout.decoded(word) == (Instruction::PushFromRegister { control_register }));
}

/// `PopIntoRegister`: the word of the instruction decodes to the instruction.
proof fn lemma_forward_pop_into_register(
    table: InstructionTableView,
    control_register: ControlRegister,
)
    requires
        is_standard(table),
    ensures
        table.supports((Instruction::PopIntoRegister { control_register })),
        table.decodes(table.word((Instruction::PopIntoRegister { control_register }))),
        table.instruction(table.word((Instruction::PopIntoRegister { control_register })))
            == (Instruction::PopIntoRegister { control_register }),
{
    let layout = standard_layout(11);
    lemma_standard_lookup(table, 11);
    lemma_low_masks();
    lemma_parts_pop_into_register();
    layout.parts[0].lemma_plain_part(3, control_register.pattern() as u32);
    assert(ControlRegister::of_pattern(control_register.pattern()) == control_register);
    lemma_fits(control_register.pattern() as u32, 0, 5, 2);
    assert(layout.bits_written("register"@, control_register.pattern() as u32) == control_register.pattern() as u32);
    layout.lemma_word1_reads("register"@, control_register.pattern() as u32);
    let word = layout.word1("register"@, control_register.pattern() as u32);
    assert(table.word((Instruction::PopIntoRegister { control_register })) == word);
    assert((word >> 27) as u8 == 11);
    assert(layout.raw_field("register"@, word) == control_register.pattern() as u32);
    assert(layout.reads("register"@, word));
    assert(layout.decodes(word));
    assert(layout.decoded(word) == (Instruction::PopIntoRegister { control_register }));
}

/// `Pop`: the word of the instruction decodes to the instruction.
proof fn lemma_forward_pop(table: InstructionTableView, bytes: NumberOfBytes)
    requires
        is_standard(table),
    ensures
        table.supports((Instruction::Pop { bytes })),
        table.decodes(table.word((Instruction::Pop { bytes }))),
        table.instruction(table.word((Instruction::Pop { bytes }))) == (Instruction::Pop { bytes }),
{
    let layout = standard_layout(12);
    lemma_standard_lookup(table, 12);
    lemma_low_masks();
    lemma_parts_pop();
    layout.parts[0].lemma_number_of_bytes_part(bytes);
    assert(NumberOfBytes::of_pattern(bytes.pattern()) == bytes);
    lemma_fits(bytes.pattern() as u32, 0, 5, 2);
    assert(layout.bits_written("num bytes"@, bytes.bytes() as u32) == bytes.pattern() as u32);
    layout.lemma_word1_reads("num bytes"@, bytes.bytes() as u32);
    let word = layout.word1("num bytes"@, bytes.bytes() as u32);
    assert(table.word((Instruction::Pop { bytes })) == word);
    assert((word >> 27) as u8 == 12);
    assert(layout.raw_field("num bytes"@, word) == bytes.pattern() as u32);
    assert(layout.reads("num bytes"@, word));
    assert(layout.decodes(word));
    assert(layout.decoded(word) == (Instruction::Pop { bytes }));
}

/// `StackOffset`: the word of the instruction decodes to the instruction.
proof fn lemma_forward_stack_offset(table: InstructionTableView, bytes: u32)
    requires
        is_standard(table),
        bytes <= 0x7ff_ffff,
    ensures
        table.supports((Instruction::StackOffset { bytes })),
        table.decodes(table.word((Instruction::StackOffset { bytes }))),
        table.instruction(table.word((Instruction::StackOffset { bytes })))
            == (Instruction::StackOffset { bytes }),
{
    let layout = standard_layout(13);
    lemma_standard_lookup(table, 13);
    lemma_low_masks();
    lemma_parts_stack_offset();
    lemma_fits(bytes, 0, 5, 27);
    assert(layout.bits_written("num bytes"@, bytes) == bytes);
    layout.lemma_word1_reads("num bytes"@, bytes);
    let word = layout.word1("num bytes"@, bytes);
    assert(table.word((Instruction::StackOffset { bytes })) == word);
    assert((word >> 27) as u8 == 13);
    assert(layout.raw_field("num bytes"@, word) == bytes);
    assert(layout.reads("num bytes"@, word));
    assert(layout.decodes(word));
    assert(layout.decoded(word) == (Instruction::StackOffset { bytes }));
}

/// `Call`: the word of the instruction decodes to the instruction.
proof fn lemma_forward_call(
    table: InstructionTableView,
    source: AddressJumpAddressSource,
    offset: u32,
)
    requires
        is_standard(table),
        offset <= 0x3ff_ffff,
    ensures
        table.supports((Instruction::Call { source, offset })),
        table.decodes(table.word((Instruction::Call { source, offset }))),
        table.instruction(table.word((Instruction::Call { source, offset })))
            == (Instruction::Call { source, offset }),
{
    let layout = standard_layout(14);
    lemma_standard_lookup(table, 14);
    lemma_low_masks();
    lemma_parts_call();
    layout.parts[0].lemma_plain_part(2, source.pattern() as u32);
    assert(AddressJumpAddressSource::of_pattern(source.pattern()) == source);
    lemma_fits(source.pattern() as u32, 0, 5, 1);
    assert(layout.bits_written("source"@, source.pattern() as u32) == source.pattern() as u32);
    lemma_fits(offset, 0, 6, 26);
    assert(layout.bits_written("offset"@, offset) == offset);
    layout.lemma_word2_reads("source"@, source.pattern() as u32, "offset"@, offset);
    let word = layout.word2("source"@, source.pattern() as u32, "offset"@, offset);
    assert(table.word((Instruction::Call { source, offset })) == word);
    assert((word >> 27) as u8 == 14);
    assert(layout.raw_field("source"@, word) == source.pattern() as u32);
    assert(layout.reads("source"@, word));
    assert(layout.raw_field("offset"@, word) == offset);
    assert(layout.reads("offset"@, word));
    assert(layout.decodes(word));
    assert(layout.decoded(word) == (Instruction::Call { source, offset }));
}

/// `Return`: the word of the instruction decodes to the instruction.
proof fn lemma_forward_return(table: InstructionTableView)
    requires
        is_standard(table),
    ensures
        table.supports(Instruction::Return),
        table.decodes(table.word(Instruction::Return)),
        table.instruction(table.word(Instruction::Return)) == Instruction::Return,
{
    let layout = standard_layout(15);
    lemma_standard_lookup(table, 15);
    lemma_low_masks();
    lemma_header(15, 5, 0);
    assert(layout.header() >> 27 == 15);
}

/// `noop`: the instruction that a word decodes to is encoded as the word.
proof fn lemma_backward_noop(table: InstructionTableView, word: u32)
    requires
        is_standard(table),
        word >> 27 == 0,
        standard_layout(0).decodes(word),
        standard_layout(0).unused_bits(word) == 0,
    ensures
        table.supports(standard_layout(0).decoded(word)),
        table.word(standard_layout(0).decoded(word)) == word,
{
    let layout = standard_layout(0);
    lemma_standard_lookup(table, 0);
    lemma_low_masks();
    reveal_with_fuel(BitLayoutView::start, 2);
    layout.lemma_rebuild_ends(word);
    assert(0u32 << 27 == 0) by (bit_vector);
}

/// `push_imm`: the instruction that a word decodes to is encoded as the word.
proof fn lemma_backward_push_immediate(table: InstructionTableView, word: u32)
    requires
        is_standard(table),
        word >> 27 == 1,
        standard_layout(1).decodes(word),
        standard_layout(1).unused_bits(word) == 0,
    ensures
        table.supports(standard_layout(1).decoded(word)),
        table.word(standard_layout(1).decoded(word)) == word,
{
    let layout = standard_layout(1);
    lemma_standard_lookup(table, 1);
    lemma_low_masks();
    lemma_parts_push_immediate();
    let r0 = layout.raw_field("num bytes"@, word);
    lemma_fits(0, word, 5, 2);
    let bytes = NumberOfBytes::of_pattern(r0 as u8);
    assert(bytes.pattern() == r0);
    layout.parts[0].lemma_number_of_bytes_part(bytes);
    lemma_fits(r0, word, 5, 2);
    assert(layout.bits_written("num bytes"@, bytes.bytes() as u32) == r0);
    let r1 = layout.raw_field("lshift"@, word);
    lemma_fits(0, word, 7, 2);
    let lshift = LeftShift::of_pattern(r1 as u8);
    assert(lshift.pattern() == r1);
    layout.parts[1].lemma_left_shift_part(lshift);
    lemma_fits(r1, word, 7, 2);
    assert(layout.bits_written("lshift"@, lshift.shift_size() as u32) == r1);
    let r2 = layout.raw_field("immediate lsb"@, word);
    lemma_fits(0, word, 9, 16);
    let immediate = le_pair_of(r2);
    lemma_le_pair(immediate, r2);
    lemma_fits(r2, word, 9, 16);
    assert(le_pair_value(immediate) == r2);
    lemma_fits(r2, word, 9, 16);
    assert(layout.bits_written("immediate lsb"@, le_pair_value(immediate)) == r2);
    assert(layout.decoded(word) == (Instruction::PushImmediate { bytes, lshift, immediate }));
    layout.lemma_word3_rebuilds(
        word,
        "num bytes"@,
        bytes.bytes() as u32,
        "lshift"@,
        lshift.shift_size() as u32,
        "immediate lsb"@,
        le_pair_value(immediate),
    );
}

/// `loadaddr`: the instruction that a word decodes to is encoded as the word.
proof fn lemma_backward_load_address(table: InstructionTableView, word: u32)
    requires
        is_standard(table),
        word >> 27 == 2,
        standard_layout(2).decodes(word),
        standard_layout(2).unused_bits(word) == 0,
    ensures
        table.supports(standard_layout(2).decoded(word)),
        table.word(standard_layout(2).decoded(word)) == word,
{
    let layout = standard_layout(2);
    lemma_standard_lookup(table, 2);
    lemma_low_masks();
    lemma_parts_load_address();
    let r0 = layout.raw_field("num bytes"@, word);
    lemma_fits(0, word, 5, 2);
    let bytes = NumberOfBytes::of_pattern(r0 as u8);
    assert(bytes.pattern() == r0);
    layout.parts[0].lemma_number_of_bytes_part(bytes);
    lemma_fits(r0, word, 5, 2);
    assert(layout.bits_written("num bytes"@, bytes.bytes() as u32) == r0);
    let r1 = layout.raw_field("mode"@, word);
    lemma_fits(0, word, 7, 2);
    let mode = LoadStoreAddressingMode::of_pattern(r1 as u8);
    assert(mode.pattern() == r1);
    layout.parts[1].lemma_plain_part(4, r1);
    lemma_fits(r1, word, 7, 2);
    assert(layout.bits_written("mode"@, mode.pattern() as u32) == r1);
    let r2 = layout.raw_field("operand"@, word);
    lemma_fits(0, word, 9, 23);
    let operand = r2;
    lemma_fits(r2, word, 9, 23);
    assert(layout.bits_written("operand"@, operand) == r2);
    assert(layout.decoded(word) == (Instruction::LoadAddress { bytes, mode, operand }));
    layout.lemma_word3_rebuilds(
        word,
        "num bytes"@,
        bytes.bytes() as u32,
        "mode"@,
        mode.pattern() as u32,
        "operand"@,
        operand,
    );
}

/// `storeaddr`: the instruction that a word decodes to is encoded as the word.
proof fn lemma_backward_store_address(table: InstructionTableView, word: u32)
    requires
        is_standard(table),
        word >> 27 == 3,
        standard_layout(3).decodes(word),
        standard_layout(3).unused_bits(word) == 0,
    ensures
        table.supports(standard_layout(3).decoded(word)),
        table.word(standard_layout(3).decoded(word)) == word,
{
    let layout = standard_layout(3);
    lemma_standard_lookup(table, 3);
    lemma_low_masks();
    lemma_parts_store_address();
    let r0 = layout.raw_field("num bytes"@, word);
    lemma_fits(0, word, 5, 2);
    let bytes = NumberOfBytes::of_pattern(r0 as u8);
    assert(bytes.pattern() == r0);
    layout.parts[0].lemma_number_of_bytes_part(bytes);
    lemma_fits(r0, word, 5, 2);
    assert(layout.bits_written("num bytes"@, bytes.bytes() as u32) == r0);
    let r1 = layout.raw_field("mode"@, word);
    lemma_fits(0, word, 7, 2);
    let mode = LoadStoreAddressingMode::of_pattern(r1 as u8);
    assert(mode.pattern() == r1);
    layout.parts[1].lemma_plain_part(4, r1);
    lemma_fits(r1, word, 7, 2);
    assert(layout.bits_written("mode"@, mode.pattern() as u32) == r1);
    let r2 = layout.raw_field("operand"@, word);
    lemma_fits(0, word, 9, 23);
    let operand = r2;
    lemma_fits(r2, word, 9, 23);
    assert(layout.bits_written("operand"@, operand) == r2);
    assert(layout.decoded(word) == (Instruction::StoreAddress { bytes, mode, operand }));
    layout.lemma_word3_rebuilds(
        word,
        "num bytes"@,
        bytes.bytes() as u32,
        "mode"@,
        mode.pattern() as u32,
        "operand"@,
        operand,
    );
}

/// `shift`: the instruction that a word decodes to is encoded as the word.
proof fn lemma_backward_bit_shift(table: InstructionTableView, word: u32)
    requires
        is_standard(table),
        word >> 27 == 4,
        standard_layout(4).decodes(word),
        standard_layout(4).unused_bits(word) == 0,
    ensures
        table.supports(standard_layout(4).decoded(word)),
        table.word(standard_layout(4).decoded(word)) == word,
{
    let layout = standard_layout(4);
    lemma_standard_lookup(table, 4);
    lemma_low_masks();
    lemma_parts_bit_shift();
    let r0 = layout.raw_field("num bytes"@, word);
    lemma_fits(0, word, 5, 2);
    let bytes = NumberOfBytes::of_pattern(r0 as u8);
    assert(bytes.pattern() == r0);
    layout.parts[0].lemma_number_of_bytes_part(bytes);
    lemma_fits(r0, word, 5, 2);
    assert(layout.bits_written("num bytes"@, bytes.bytes() as u32) == r0);
    let r1 = layout.raw_field("direction"@, word);
    lemma_fits(0, word, 7, 1);
    let direction = ShiftDirection::of_pattern(r1 as u8);
    assert(direction.pattern() == r1);
    layout.parts[1].lemma_plain_part(2, r1);
    lemma_fits(r1, word, 7, 1);
    assert(layout.bits_written("direction"@, direction.pattern() as u32) == r1);
    let r2 = layout.raw_field("mode"@, word);
    lemma_fits(0, word, 8, 1);
    let mode = OperationMode::of_pattern(r2 as u8);
    assert(mode.pattern() == r2);
    layout.parts[2].lemma_plain_part(2, r2);
    lemma_fits(r2, word, 8, 1);
    assert(layout.bits_written("mode"@, mode.pattern() as u32) == r2);
    let r3 = layout.raw_field("keep sign"@, word);
    lemma_fits(0, word, 9, 1);
    let sign = SignFlag::of_pattern(r3 as u8);
    assert(sign.pattern() == r3);
    layout.parts[3].lemma_plain_part(2, r3);
    lemma_fits(r3, word, 9, 1);
    assert(layout.bits_written("keep sign"@, sign.pattern() as u32) == r3);
    let r4 = layout.raw_field("operand"@, word);
    lemma_fits(0, word, 10, 8);
    let operand = (r4 & 0xff) as u8;
    lemma_fits(r4, word, 10, 8);
    assert(operand as u32 == r4);
    lemma_fits(r4, word, 10, 8);
    assert(layout.bits_written("operand"@, operand as u32) == r4);
    assert(layout.decoded(word) == (Instruction::BitShift { bytes, direction, mode, sign, operand }));
    layout.lemma_word5_rebuilds(
        word,
        "num bytes"@,
        bytes.bytes() as u32,
        "direction"@,
        direction.pattern() as u32,
        "mode"@,
        mode.pattern() as u32,
        "keep sign"@,
        sign.pattern() as u32,
        "operand"@,
        operand as u32,
    );
}

/// `bitwise`: the instruction that a word decodes to is encoded as the word.
proof fn lemma_backward_bitwise(table: InstructionTableView, word: u32)
    requires
        is_standard(table),
        word >> 27 == 5,
        standard_layout(5).decodes(word),
        standard_layout(5).unused_bits(word) == 0,
    ensures
        table.supports(standard_layout(5).decoded(word)),
        table.word(standard_layout(5).decoded(word)) == word,
{
    let layout = standard_layout(5);
    lemma_standard_lookup(table, 5);
    lemma_low_masks();
    lemma_parts_bitwise();
    let r0 = layout.raw_field("num bytes"@, word);
    lemma_fits(0, word, 5, 2);
    let bytes = NumberOfBytes::of_pattern(r0 as u8);
    assert(bytes.pattern() == r0);
    layout.parts[0].lemma_number_of_bytes_part(bytes);
    lemma_fits(r0, word, 5, 2);
    assert(layout.bits_written("num bytes"@, bytes.bytes() as u32) == r0);
    let r1 = layout.raw_field("operation"@, word);
    lemma_fits(0, word, 7, 2);
    let operation = BitwiseOperation::of_pattern(r1 as u8);
    assert(operation.pattern() == r1);
    layout.parts[1].lemma_plain_part(3, r1);
    lemma_fits(r1, word, 7, 2);
    assert(layout.bits_written("operation"@, operation.pattern() as u32) == r1);
    let r2 = layout.raw_field("mode"@, word);
    lemma_fits(0, word, 9, 1);
    let mode = OperationMode::of_pattern(r2 as u8);
    assert(mode.pattern() == r2);
    layout.parts[2].lemma_plain_part(2, r2);
    lemma_fits(r2, word, 9, 1);
    assert(layout.bits_written("mode"@, mode.pattern() as u32) == r2);
    let r3 = layout.raw_field("sign"@, word);
    lemma_fits(0, word, 10, 1);
    let sign = SignFlag::of_pattern(r3 as u8);
    assert(sign.pattern() == r3);
    layout.parts[3].lemma_plain_part(2, r3);
    lemma_fits(r3, word, 10, 1);
    assert(layout.bits_written("sign"@, sign.pattern() as u32) == r3);
    let r4 = layout.raw_field("operand"@, word);
    lemma_fits(0, word, 11, 16);
    let operand = le_pair_of(r4);
    lemma_le_pair(operand, r4);
    lemma_fits(r4, word, 11, 16);
    assert(le_pair_value(operand) == r4);
    lemma_fits(r4, word, 11, 16);
    assert(layout.bits_written("operand"@, le_pair_value(operand)) == r4);
    assert(layout.decoded(word) == (Instruction::Bitwise { bytes, operation, mode, sign, operand }));
    layout.lemma_word5_rebuilds(
        word,
        "num bytes"@,
        bytes.bytes() as u32,
        "operation"@,
        operation.pattern() as u32,
        "mode"@,
        mode.pattern() as u32,
        "sign"@,
        sign.pattern() as u32,
        "operand"@,
        le_pair_value(operand),
    );
}

/// `integer_binary_op`: the instruction that a word decodes to is encoded as the word.
proof fn lemma_backward_integer_arithmetic(table: InstructionTableView, word: u32)
    requires
        is_standard(table),
        word >> 27 == 6,
        standard_layout(6).decodes(word),
        standard_layout(6).unused_bits(word) == 0,
    ensures
        table.supports(standard_layout(6).decoded(word)),
        table.word(standard_layout(6).decoded(word)) == word,
{
    let layout = standard_layout(6);
    lemma_standard_lookup(table, 6);
    lemma_low_masks();
    lemma_parts_integer_arithmetic();
    let r0 = layout.raw_field("num bytes"@, word);
    lemma_fits(0, word, 5, 2);
    let bytes = NumberOfBytes::of_pattern(r0 as u8);
    assert(bytes.pattern() == r0);
    layout.parts[0].lemma_number_of_bytes_part(bytes);
    lemma_fits(r0, word, 5, 2);
    assert(layout.bits_written("num bytes"@, bytes.bytes() as u32) == r0);
    let r1 = layout.raw_field("operation"@, word);
    lemma_fits(0, word, 7, 3);
    let operation = ArithmeticOperation::of_pattern(r1 as u8);
    assert(operation.pattern() == r1);
    layout.parts[1].lemma_plain_part(5, r1);
    lemma_fits(r1, word, 7, 3);
    assert(layout.bits_written("operation"@, operation.pattern() as u32) == r1);
    let r2 = layout.raw_field("sign"@, word);
    lemma_fits(0, word, 10, 1);
    let sign = SignFlag::of_pattern(r2 as u8);
    assert(sign.pattern() == r2);
    layout.parts[2].lemma_plain_part(2, r2);
    lemma_fits(r2, word, 10, 1);
    assert(layout.bits_written("sign"@, sign.pattern() as u32) == r2);
    let r3 = layout.raw_field("mode"@, word);
    lemma_fits(0, word, 11, 1);
    let mode = OperationMode::of_pattern(r3 as u8);
    assert(mode.pattern() == r3);
    layout.parts[3].lemma_plain_part(2, r3);
    lemma_fits(r3, word, 11, 1);
    assert(layout.bits_written("mode"@, mode.pattern() as u32) == r3);
    let r4 = layout.raw_field("operand"@, word);
    lemma_fits(0, word, 12, 16);
    let operand = le_pair_of(r4);
    lemma_le_pair(operand, r4);
    lemma_fits(r4, word, 12, 16);
    assert(le_pair_value(operand) == r4);
    lemma_fits(r4, word, 12, 16);
    assert(layout.bits_written("operand"@, le_pair_value(operand)) == r4);
    assert(layout.decoded(word) == (Instruction::IntegerArithmetic { bytes, operation, sign, mode, operand }));
    layout.lemma_word5_rebuilds(
        word,
        "num bytes"@,
        bytes.bytes() as u32,
        "operation"@,
        operation.pattern() as u32,
        "sign"@,
        sign.pattern() as u32,
        "mode"@,
        mode.pattern() as u32,
        "operand"@,
        le_pair_value(operand),
    );
}

/// `integer_compare`: the instruction that a word decodes to is encoded as the word.
proof fn lemma_backward_integer_compare(table: InstructionTableView, word: u32)
    requires
        is_standard(table),
        word >> 27 == 7,
        standard_layout(7).decodes(word),
        standard_layout(7).unused_bits(word) == 0,
    ensures
        table.supports(standard_layout(7).decoded(word)),
        table.word(standard_layout(7).decoded(word)) == word,
{
    let layout = standard_layout(7);
    lemma_standard_lookup(table, 7);
    lemma_low_masks();
    lemma_parts_integer_compare();
    let r0 = layout.raw_field("num bytes"@, word);
    lemma_fits(0, word, 5, 2);
    let bytes = NumberOfBytes::of_pattern(r0 as u8);
    assert(bytes.pattern() == r0);
    layout.parts[0].lemma_number_of_bytes_part(bytes);
    lemma_fits(r0, word, 5, 2);
    assert(layout.bits_written("num bytes"@, bytes.bytes() as u32) == r0);
    let r1 = layout.raw_field("operation"@, word);
    lemma_fits(0, word, 7, 3);
    let operation = CompareOperation::of_pattern(r1 as u8);
    assert(operation.pattern() == r1);
    layout.parts[1].lemma_plain_part(6, r1);
    lemma_fits(r1, word, 7, 3);
    assert(layout.bits_written("operation"@, operation.pattern() as u32) == r1);
    let r2 = layout.raw_field("sign"@, word);
    lemma_fits(0, word, 10, 1);
    let sign = SignFlag::of_pattern(r2 as u8);
    assert(sign.pattern() == r2);
    layout.parts[2].lemma_plain_part(2, r2);
    lemma_fits(r2, word, 10, 1);
    assert(layout.bits_written("sign"@, sign.pattern() as u32) == r2);
    let r3 = layout.raw_field("mode"@, word);
    lemma_fits(0, word, 11, 1);
    let mode = OperationMode::of_pattern(r3 as u8);
    assert(mode.pattern() == r3);
    layout.parts[3].lemma_plain_part(2, r3);
    lemma_fits(r3, word, 11, 1);
    assert(layout.bits_written("mode"@, mode.pattern() as u32) == r3);
    let r4 = layout.raw_field("operand"@, word);
    lemma_fits(0, word, 12, 16);
    let operand = le_pair_of(r4);
    lemma_le_pair(operand, r4);
    lemma_fits(r4, word, 12, 16);
    assert(le_pair_value(operand) == r4);
    lemma_fits(r4, word, 12, 16);
    assert(layout.bits_written("operand"@, le_pair_value(operand)) == r4);
    assert(layout.decoded(word) == (Instruction::IntegerCompare { bytes, operation, sign, mode, operand }));
    layout.lemma_word5_rebuilds(
        word,
        "num bytes"@,
        bytes.bytes() as u32,
        "operation"@,
        operation.pattern() as u32,
        "sign"@,
        sign.pattern() as u32,
        "mode"@,
        mode.pattern() as u32,
        "operand"@,
        le_pair_value(operand),
    );
}

/// `float_binary_op`: the instruction that a word decodes to is encoded as the word.
proof fn lemma_backward_float_arithmetic(table: InstructionTableView, word: u32)
    requires
        is_standard(table),
        word >> 27 == 8,
        standard_layout(8).decodes(word),
        standard_layout(8).unused_bits(word) == 0,
    ensures
        table.supports(standard_layout(8).decoded(word)),
        table.word(standard_layout(8).decoded(word)) == word,
{
    let layout = standard_layout(8);
    lemma_standard_lookup(table, 8);
    lemma_low_masks();
    lemma_parts_float_arithmetic();
    let r0 = layout.raw_field("num bytes"@, word);
    lemma_fits(0, word, 5, 2);
    let bytes = NumberOfBytes::of_pattern(r0 as u8);
    assert(bytes.pattern() == r0);
    layout.parts[0].lemma_number_of_bytes_part(bytes);
    lemma_fits(r0, word, 5, 2);
    assert(layout.bits_written("num bytes"@, bytes.bytes() as u32) == r0);
    let r1 = layout.raw_field("operation"@, word);
    lemma_fits(0, word, 7, 3);
    let operation = ArithmeticOperation::of_pattern(r1 as u8);
    assert(operation.pattern() == r1);
    layout.parts[1].lemma_plain_part(5, r1);
    lemma_fits(r1, word, 7, 3);
    assert(layout.bits_written("operation"@, operation.pattern() as u32) == r1);
    assert(layout.decoded(word) == (Instruction::FloatArithmetic { bytes, operation }));
    layout.lemma_word2_rebuilds(
        word,
        "num bytes"@,
        bytes.bytes() as u32,
        "operation"@,
        operation.pattern() as u32,
    );
}

/// `float_compare_op`: the instruction that a word decodes to is encoded as the word.
proof fn lemma_backward_float_compare(table: InstructionTableView, word: u32)
    requires
        is_standard(table),
        word >> 27 == 9,
        standard_layout(9).decodes(word),
        standard_layout(9).unused_bits(word) == 0,
    ensures
        table.supports(standard_layout(9).decoded(word)),
        table.word(standard_layout(9).decoded(word)) == word,
{
    let layout = standard_layout(9);
    lemma_standard_lookup(table, 9);
    lemma_low_masks();
    lemma_parts_float_compare();
    let r0 = layout.raw_field("num bytes"@, word);
    lemma_fits(0, word, 5, 2);
    let bytes = NumberOfBytes::of_pattern(r0 as u8);
    assert(bytes.pattern() == r0);
    layout.parts[0].lemma_number_of_bytes_part(bytes);
    lemma_fits(r0, word, 5, 2);
    assert(layout.bits_written("num bytes"@, bytes.bytes() as u32) == r0);
    let r1 = layout.raw_field("operation"@, word);
    lemma_fits(0, word, 7, 3);
    let operation = CompareOperation::of_pattern(r1 as u8);
    assert(operation.pattern() == r1);
    layout.parts[1].lemma_plain_part(6, r1);
    lemma_fits(r1, word, 7, 3);
    assert(layout.bits_written("operation"@, operation.pattern() as u32) == r1);
    assert(layout.decoded(word) == (Instruction::FloatCompare { bytes, operation }));
    layout.lemma_word2_rebuilds(
        word,
        "num bytes"@,
        bytes.bytes() as u32,
        "operation"@,
        operation.pattern() as u32,
    );
}

/// `push_reg`: the instruction that a word decodes to is encoded as the word.
proof fn lemma_backward_push_from_register(table: InstructionTableView, word: u32)
    requires
        is_standard(table),
        word >> 27 == 10,
        standard_layout(10).decodes(word),
        standard_layout(10).unused_bits(word) == 0,
    ensures
        table.supports(standard_layout(10).decoded(word)),
        table.word(standard_layout(10).decoded(word)) == word,
{
    let layout = standard_layout(10);
    lemma_standard_lookup(table, 10);
    lemma_low_masks();
    lemma_parts_push_from_register();
    let r0 = layout.raw_field("register"@, word);
    lemma_fits(0, word, 5, 2);
    let control_register = ControlRegister::of_pattern(r0 as u8);
    assert(control_register.pattern() == r0);
    layout.parts[0].lemma_plain_part(3, r0);
    lemma_fits(r0, word, 5, 2);
    assert(layout.bits_written("register"@, control_register.pattern() as u32) == r0);
    assert(layout.decoded(word) == (Instruction::PushFromRegister { control_register }));
    layout.lemma_word1_rebuilds(word, "register"@, control_register.pattern() as u32);
}

/// `pop_reg`: the instruction that a word decodes to is encoded as the word.
proof fn lemma_backward_pop_into_register(table: InstructionTableView, word: u32)
    requires
        is_standard(table),
        word >> 27 == 11,
        standard_layout(11).decodes(word),
        standard_layout(11).unused_bits(word) == 0,
    ensures
        table.supports(standard_layout(11).decoded(word)),
        table.word(standard_layout(11).decoded(word)) == word,
{
    let layout = standard_layout(11);
    lemma_standard_lookup(table, 11);
    lemma_low_masks();
    lemma_parts_pop_into_register();
    let r0 = layout.raw_field("register"@, word);
    lemma_fits(0, word, 5, 2);
    let control_register = ControlRegister::of_pattern(r0 as u8);
    assert(control_register.pattern() == r0);
    layout.parts[0].lemma_plain_part(3, r0);
    lemma_fits(r0, word, 5, 2);
    assert(layout.bits_written("register"@, control_register.pattern() as u32) == r0);
    assert(layout.decoded(word) == (Instruction::PopIntoRegister { control_register }));
    layout.lemma_word1_rebuilds(word, "register"@, control_register.pattern() as u32);
}

/// `pop`: the instruction that a word decodes to is encoded as the word.
proof fn lemma_backward_pop(table: InstructionTableView, word: u32)
    requires
        is_standard(table),
        word >> 27 == 12,
        standard_layout(12).decodes(word),
        standard_layout(12).unused_bits(word) == 0,
    ensures
        table.supports(standard_layout(12).decoded(word)),
        table.word(standard_layout(12).decoded(word)) == word,
{
    let layout = standard_layout(12);
    lemma_standard_lookup(table, 12);
    lemma_low_masks();
    lemma_parts_pop();
    let r0 = layout.raw_field("num bytes"@, word);
    lemma_fits(0, word, 5, 2);
    let bytes = NumberOfBytes::of_pattern(r0 as u8);
    assert(bytes.pattern() == r0);
    layout.parts[0].lemma_number_of_bytes_part(bytes);
    lemma_fits(r0, word, 5, 2);
    assert(layout.bits_written("num bytes"@, bytes.bytes() as u32) == r0);
    assert(layout.decoded(word) == (Instruction::Pop { bytes }));
    layout.lemma_word1_rebuilds(word, "num bytes"@, bytes.bytes() as u32);
}

/// `stackoffset`: the instruction that a word decodes to is encoded as the word.
proof fn lemma_backward_stack_offset(table: InstructionTableView, word: u32)
    requires
        is_standard(table),
        word >> 27 == 13,
        standard_layout(13).decodes(word),
        standard_layout(13).unused_bits(word) == 0,
    ensures
        table.supports(standard_layout(13).decoded(word)),
        table.word(standard_layout(13).decoded(word)) == word,
{
    let layout = standard_layout(13);
    lemma_standard_lookup(table, 13);
    lemma_low_masks();
    lemma_parts_stack_offset();
    let r0 = layout.raw_field("num bytes"@, word);
    lemma_fits(0, word, 5, 27);
    let bytes = r0;
    lemma_fits(r0, word, 5, 27);
    assert(layout.bits_written("num bytes"@, bytes) == r0);
    assert(layout.decoded(word) == (Instruction::StackOffset { bytes }));
    layout.lemma_word1_rebuilds(word, "num bytes"@, bytes);
}

/// `call`: the instruction that a word decodes to is encoded as the word.
proof fn lemma_backward_call(table: InstructionTableView, word: u32)
    requires
        is_standard(table),
        word >> 27 == 14,
        standard_layout(14).decodes(word),
        standard_layout(14).unused_bits(word) == 0,
    ensures
        table.supports(standard_layout(14).decoded(word)),
        table.word(standard_layout(14).decoded(word)) == word,
{
    let layout = standard_layout(14);
    lemma_standard_lookup(table, 14);
    lemma_low_masks();
    lemma_parts_call();
    let r0 = layout.raw_field("source"@, word);
    lemma_fits(0, word, 5, 1);
    let source = AddressJumpAddressSource::of_pattern(r0 as u8);
    assert(source.pattern() == r0);
    layout.parts[0].lemma_plain_part(2, r0);
    lemma_fits(r0, word, 5, 1);
    assert(layout.bits_written("source"@, source.pattern() as u32) == r0);
    let r1 = layout.raw_field("offset"@, word);
    lemma_fits(0, word, 6, 26);
    let offset = r1;
    lemma_fits(r1, word, 6, 26);
    assert(layout.bits_written("offset"@, offset) == r1);
    assert(layout.decoded(word) == (Instruction::Call { source, offset }));
    layout.lemma_word2_rebuilds(word, "source"@, source.pattern() as u32, "offset"@, offset);
}

/// `return`: the instruction that a word decodes to is encoded as the word.
proof fn lemma_backward_return(table: InstructionTableView, word: u32)
    requires
        is_standard(table),
        word >> 27 == 15,
        standard_layout(15).decodes(word),
        standard_layout(15).unused_bits(word) == 0,
    ensures
        table.supports(standard_layout(15).decoded(word)),
        table.word(standard_layout(15).decoded(word)) == word,
{
    let layout = standard_layout(15);
    lemma_standard_lookup(table, 15);
    lemma_low_masks();
    reveal_with_fuel(BitLayoutView::start, 2);
    layout.lemma_rebuild_ends(word);
}

/// The round trip of an instruction that moves data between the stack, memory and the registers.
proof fn lemma_forward_stack(table: InstructionTableView, instruction: Instruction)
    requires
        is_standard(table),
        instruction.fits_standard(),
        instruction is PushImmediate
            || instruction is LoadAddress
            || instruction is StoreAddress
            || instruction is PushFromRegister
            || instruction is PopIntoRegister
            || instruction is Pop
            || instruction is StackOffset,
    ensures
        table.supports(instruction),
        table.decodes(table.word(instruction)),
        table.instruction(table.word(instruction)) == instruction,
{
    match instruction {
        Instruction::PushImmediate { bytes, lshift, immediate } => {
            lemma_forward_push_immediate(table, bytes, lshift, immediate);
        },
        Instruction::LoadAddress { bytes, mode, operand } => {
            lemma_forward_load_address(table, bytes, mode, operand);
        },
        Instruction::StoreAddress { bytes, mode, operand } => {
            lemma_forward_store_address(table, bytes, mode, operand);
        },
        Instruction::PushFromRegister { control_register } => {
            lemma_forward_push_from_register(table, control_register);
        },
        Instruction::PopIntoRegister { control_register } => {
            lemma_forward_pop_into_register(table, control_register);
        },
        Instruction::Pop { bytes } => {
            lemma_forward_pop(table, bytes);
        },
        Instruction::StackOffset { bytes } => {
            lemma_forward_stack_offset(table, bytes);
        },
        _ => {},
    }
}

/// The round trip of a shift, a bitwise operation, an arithmetic operation or a comparison.
proof fn lemma_forward_operation(table: InstructionTableView, instruction: Instruction)
    requires
        is_standard(table),
        instruction.fits_standard(),
        instruction is BitShift
            || instruction is Bitwise
            || instruction is IntegerArithmetic
            || instruction is IntegerCompare
            || instruction is FloatArithmetic
            || instruction is FloatCompare,
    ensures
        table.supports(instruction),
        table.decodes(table.word(instruction)),
        table.instruction(table.word(instruction)) == instruction,
{
    match instruction {
        Instruction::BitShift { bytes, direction, mode, sign, operand } => {
            lemma_forward_bit_shift(table, bytes, direction, mode, sign, operand);
        },
        Instruction::Bitwise { bytes, operation, mode, sign, operand } => {
            lemma_forward_bitwise(table, bytes, operation, mode, sign, operand);
        },
        Instruction::IntegerArithmetic { bytes, operation, sign, mode, operand } => {
            lemma_forward_integer_arithmetic(table, bytes, operation, sign, mode, operand);
        },
        Instruction::IntegerCompare { bytes, operation, sign, mode, operand } => {
            lemma_forward_integer_compare(table, bytes, operation, sign, mode, operand);
        },
        Instruction::FloatArithmetic { bytes, operation } => {
            lemma_forward_float_arithmetic(table, bytes, operation);
        },
        Instruction::FloatCompare { bytes, operation } => {
            lemma_forward_float_compare(table, bytes, operation);
        },
        _ => {},
    }
}

/// The round trip of a call, a return or a no-op.
proof fn lemma_forward_control_flow(table: InstructionTableView, instruction: Instruction)
    requires
        is_standard(table),
        instruction.fits_standard(),
        instruction is Noop || instruction is Call || instruction is Return,
    ensures
        table.supports(instruction),
        table.decodes(table.word(instruction)),
        table.instruction(table.word(instruction)) == instruction,
{
    match instruction {
        Instruction::Noop => {
            lemma_forward_noop(table);
        },
        Instruction::Call { source, offset } => {
            lemma_forward_call(table, source, offset);
        },
        Instruction::Return => {
            lemma_forward_return(table);
        },
        _ => {},
    }
}

/// Decoding after encoding: every instruction that fits the standard
/// table is encoded as a word that decodes to that instruction.
pub proof fn lemma_decode_encode(table: InstructionTableView, instruction: Instruction)
    requires
        is_standard(table),
        instruction.fits_standard(),
    ensures
        table.supports(instruction),
        table.decodes(table.word(instruction)),
        table.instruction(table.word(instruction)) == instruction,
{
    if instruction is Noop || instruction is Call || instruction is Return {
        lemma_forward_control_flow(table, instruction);
    } else if instruction is BitShift || instruction is Bitwise || instruction is IntegerArithmetic
        || instruction is IntegerCompare || instruction is FloatArithmetic
        || instruction is FloatCompare {
        lemma_forward_operation(table, instruction);
    } else {
        lemma_forward_stack(table, instruction);
    }
}

/// Encoding after decoding: every word that the standard table decodes,
/// and that has no bits below the parts of its layout, is the word of the
/// instruction it decodes to.
pub proof fn lemma_encode_decode(table: InstructionTableView, word: u32)
    requires
        is_standard(table),
        table.decodes(word),
        table.unused_bits(word) == 0,
    ensures
        table.supports(table.instruction(word)),
        table.word(table.instruction(word)) == word,
        table.instruction(word).fits_standard(),
{
    let op = (word >> 27) as u8;
    assert(word >> 27 < 32) by (bit_vector);
    lemma_standard_pseudoops(table, op);
    lemma_standard_lookup(table, op as int);
    lemma_low_masks();
    if op == 0 {
        lemma_backward_noop(table, word);
        lemma_fits_noop(word);
    } else if op == 1 {
        lemma_backward_push_immediate(table, word);
        lemma_fits_push_immediate(word);
    } else if op == 2 {
        lemma_backward_load_address(table, word);
        lemma_fits_load_address(word);
    } else if op == 3 {
        lemma_backward_store_address(table, word);
        lemma_fits_store_address(word);
    } else if op == 4 {
        lemma_backward_bit_shift(table, word);
        lemma_fits_bit_shift(word);
    } else if op == 5 {
        lemma_backward_bitwise(table, word);
        lemma_fits_bitwise(word);
    } else if op == 6 {
        lemma_backward_integer_arithmetic(table, word);
        lemma_fits_integer_arithmetic(word);
    } else if op == 7 {
        lemma_backward_integer_compare(table, word);
        lemma_fits_integer_compare(word);
    } else if op == 8 {
        lemma_backward_float_arithmetic(table, word);
        lemma_fits_float_arithmetic(word);
    } else if op == 9 {
        lemma_backward_float_compare(table, word);
        lemma_fits_float_compare(word);
    } else if op == 10 {
        lemma_backward_push_from_register(table, word);
        lemma_fits_push_from_register(word);
    } else if op == 11 {
        lemma_backward_pop_into_register(table, word);
        lemma_fits_pop_into_register(word);
    } else if op == 12 {
        lemma_backward_pop(table, word);
        lemma_fits_pop(word);
    } else if op == 13 {
        lemma_backward_stack_offset(table, word);
        lemma_fits_stack_offset(word);
    } else if op == 14 {
        lemma_backward_call(table, word);
        lemma_fits_call(word);
    } else {
        lemma_backward_return(table, word);
        lemma_fits_return(word);
    }
}

/// What a `noop` word decodes to fits the standard table.
proof fn lemma_fits_noop(word: u32)
    requires
        standard_layout(0).decodes(word),
    ensures
        standard_layout(0).decoded(word).fits_standard(),
{
    lemma_low_masks();
}

/// What a `push_imm` word decodes to fits the standard table.
proof fn lemma_fits_push_immediate(word: u32)
    requires
        standard_layout(1).decodes(word),
    ensures
        standard_layout(1).decoded(word).fits_standard(),
{
    lemma_low_masks();
    lemma_parts_push_immediate();
}

/// What a `loadaddr` word decodes to fits the standard table.
proof fn lemma_fits_load_address(word: u32)
    requires
        standard_layout(2).decodes(word),
    ensures
        standard_layout(2).decoded(word).fits_standard(),
{
    lemma_low_masks();
    lemma_parts_load_address();
    lemma_fits(0, word, 9, 23);
}

/// What a `storeaddr` word decodes to fits the standard table.
proof fn lemma_fits_store_address(word: u32)
    requires
        standard_layout(3).decodes(word),
    ensures
        standard_layout(3).decoded(word).fits_standard(),
{
    lemma_low_masks();
    lemma_parts_store_address();
    lemma_fits(0, word, 9, 23);
}

/// What a `shift` word decodes to fits the standard table.
proof fn lemma_fits_bit_shift(word: u32)
    requires
        standard_layout(4).decodes(word),
    ensures
        standard_layout(4).decoded(word).fits_standard(),
{
    lemma_low_masks();
    lemma_parts_bit_shift();
}

/// What a `bitwise` word decodes to fits the standard table.
proof fn lemma_fits_bitwise(word: u32)
    requires
        standard_layout(5).decodes(word),
    ensures
        standard_layout(5).decoded(word).fits_standard(),
{
    lemma_low_masks();
    lemma_parts_bitwise();
}

/// What a `integer_binary_op` word decodes to fits the standard table.
proof fn lemma_fits_integer_arithmetic(word: u32)
    requires
        standard_layout(6).decodes(word),
    ensures
        standard_layout(6).decoded(word).fits_standard(),
{
    lemma_low_masks();
    lemma_parts_integer_arithmetic();
}

/// What a `integer_compare` word decodes to fits the standard table.
proof fn lemma_fits_integer_compare(word: u32)
    requires
        standard_layout(7).decodes(word),
    ensures
        standard_layout(7).decoded(word).fits_standard(),
{
    lemma_low_masks();
    lemma_parts_integer_compare();
}

/// What a `float_binary_op` word decodes to fits the standard table.
proof fn lemma_fits_float_arithmetic(word: u32)
    requires
        standard_layout(8).decodes(word),
    ensures
        standard_layout(8).decoded(word).fits_standard(),
{
    lemma_low_masks();
    lemma_parts_float_arithmetic();
}

/// What a `float_compare_op` word decodes to fits the standard table.
proof fn lemma_fits_float_compare(word: u32)
    requires
        standard_layout(9).decodes(word),
    ensures
        standard_layout(9).decoded(word).fits_standard(),
{
    lemma_low_masks();
    lemma_parts_float_compare();
}

/// What a `push_reg` word decodes to fits the standard table.
proof fn lemma_fits_push_from_register(word: u32)
    requires
        standard_layout(10).decodes(word),
    ensures
        standard_layout(10).decoded(word).fits_standard(),
{
    lemma_low_masks();
    lemma_parts_push_from_register();
}

/// What a `pop_reg` word decodes to fits the standard table.
proof fn lemma_fits_pop_into_register(word: u32)
    requires
        standard_layout(11).decodes(word),
    ensures
        standard_layout(11).decoded(word).fits_standard(),
{
    lemma_low_masks();
    lemma_parts_pop_into_register();
}

/// What a `pop` word decodes to fits the standard table.
proof fn lemma_fits_pop(word: u32)
    requires
        standard_layout(12).decodes(word),
    ensures
        standard_layout(12).decoded(word).fits_standard(),
{
    lemma_low_masks();
    lemma_parts_pop();
}

/// What a `stackoffset` word decodes to fits the standard table.
proof fn lemma_fits_stack_offset(word: u32)
    requires
        standard_layout(13).decodes(word),
    ensures
        standard_layout(13).decoded(word).fits_standard(),
{
    lemma_low_masks();
    lemma_parts_stack_offset();
    lemma_fits(0, word, 5, 27);
}

/// What a `call` word decodes to fits the standard table.
proof fn lemma_fits_call(word: u32)
    requires
        standard_layout(14).decodes(word),
    ensures
        standard_layout(14).decoded(word).fits_standard(),
{
    lemma_low_masks();
    lemma_parts_call();
    lemma_fits(0, word, 6, 26);
}

/// What a `return` word decodes to fits the standard table.
proof fn lemma_fits_return(word: u32)
    requires
        standard_layout(15).decodes(word),
    ensures
        standard_layout(15).decoded(word).fits_standard(),
{
    lemma_low_masks();
}

/// A stack offset uses the whole remainder of the word: under the
/// standard table its word has the pseudo-op `01101` in the five upper
/// bits and the operand in the 27 lower bits, as `stackoffset_word` says.
pub proof fn lemma_stack_offset_word(table: InstructionTableView, bytes: u32)
    requires
        is_standard(table),
        bytes <= 0x7ff_ffff,
    ensures
        table.word(Instruction::StackOffset { bytes }) >> 27 == 0b01101,
        table.word(Instruction::StackOffset { bytes }) & 0x7ff_ffff == bytes,
        table.word(Instruction::StackOffset { bytes }) == stackoffset_word(bytes),
{
    let layout = standard_layout(13);
    lemma_standard_lookup(table, 13);
    lemma_low_masks();
    lemma_parts_stack_offset();
    lemma_fits(bytes, 0, 5, 27);
    layout.lemma_word1_reads("num bytes"@, bytes);
    let word = layout.word1("num bytes"@, bytes);
    assert(table.word(Instruction::StackOffset { bytes }) == word);
    assert(layout.raw_field("num bytes"@, word) == extract(word, 5, 27));
    assert(layout.raw_field("num bytes"@, word) == bytes);
    let low: u32 = (word >> 0u32) & 0x7ff_ffffu32;
    assert(low == bytes);
    assert(word & 0x7ff_ffff == bytes && word == (0x6800_0000u32 + (bytes & 0x07ff_ffffu32)) as u32)
        by (bit_vector)
        requires
            word >> 27 == 13u32,
            (word >> 0u32) & 0x7ff_ffffu32 == bytes,
            bytes <= 0x7ff_ffffu32,
    ;
}

} // verus!
