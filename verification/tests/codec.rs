//! Tests of the instruction codec: every instruction is encoded part by
//! part, decoded, encoded again and decoded again.
use donkey::freyr::assembly::AssemblyInstruction;
use donkey::freyr::encoder::{
    delete_msb_bits, encode_asm, encode_instruction, encode_stackoffset, le_bytes_to_u32,
    le_pair_from_u32, truncate_to_bits, InstructionDecoder, InstructionEncoder, LayoutHelper,
};
use donkey::freyr::vm::instructions::{
    get_all_instruction_layouts, AddressJumpAddressSource, ArithmeticOperation, BitLayout,
    BitPattern, BitwiseOperation, CompareOperation, ControlRegister, Instruction,
    InstructionTable, LeftShift, LoadStoreAddressingMode, NumberOfBytes, OperationMode, PartType,
    ShiftDirection, SignFlag,
};

#[test]
fn encode_decode_push_immediate32_lshift16() {
    let encoder = LayoutHelper::new();
    let encoded = encoder
        .begin_encode("push_imm")
        .encode("num bytes", 4)
        .encode("lshift", 16)
        .encode_bytes("immediate lsb", &25u16.to_le_bytes())
        .make();

    let decoded = encoder.begin_decode(encoded).decode();
    assert_eq!(
        decoded,
        Instruction::PushImmediate {
            bytes: NumberOfBytes::Bytes4,
            lshift: LeftShift::Shift16,
            immediate: 25u16.to_le_bytes()
        }
    );

    let reencoded = encoder.encode_instruction(&decoded);
    assert_eq!(reencoded, encoded);

    let redecoded = encoder.begin_decode(reencoded).decode();
    assert_eq!(redecoded, decoded);
}

#[test]
fn encode_decode_push_immediate16_nolshift() {
    let encoder = LayoutHelper::new();
    let encoded = encoder
        .begin_encode("push_imm")
        .encode("num bytes", 2)
        .encode("lshift", 0)
        .encode_bytes("immediate lsb", &250u16.to_le_bytes())
        .make();

    let decoded = encoder.begin_decode(encoded).decode();

    assert_eq!(
        decoded,
        Instruction::PushImmediate {
            bytes: NumberOfBytes::Bytes2,
            lshift: LeftShift::NoShift,
            immediate: 250u16.to_le_bytes()
        }
    );

    let reencoded = encoder.encode_instruction(&decoded);
    assert_eq!(reencoded, encoded);

    let redecoded = encoder.begin_decode(reencoded).decode();
    assert_eq!(redecoded, decoded);
}

#[test]
fn encode_decode_loadaddr_stack_32bits() {
    let encoder = LayoutHelper::new();
    let encoded = encoder
        .begin_encode("loadaddr")
        .encode("num bytes", 2)
        .encode("mode", 0)
        .make();

    let decoded = encoder.begin_decode(encoded).decode();

    assert_eq!(
        decoded,
        Instruction::LoadAddress {
            bytes: NumberOfBytes::Bytes2,
            mode: LoadStoreAddressingMode::Stack,
            operand: 0
        }
    );

    let reencoded = encoder.encode_instruction(&decoded);
    assert_eq!(reencoded, encoded);

    let redecoded = encoder.begin_decode(reencoded).decode();
    assert_eq!(redecoded, decoded);
}

#[test]
fn encode_decode_loadaddr_relative_pos_32bits() {
    let encoder = LayoutHelper::new();
    let encoded = encoder
        .begin_encode("loadaddr")
        .encode("num bytes", 2)
        .encode("mode", 1)
        .encode("operand", 45)
        .make();

    let decoded = encoder.begin_decode(encoded).decode();

    assert_eq!(
        decoded,
        Instruction::LoadAddress {
            bytes: NumberOfBytes::Bytes2,
            mode: LoadStoreAddressingMode::RelativeForward,
            operand: 45
        }
    );

    let reencoded = encoder.encode_instruction(&decoded);
    assert_eq!(reencoded, encoded);

    let redecoded = encoder.begin_decode(reencoded).decode();
    assert_eq!(redecoded, decoded);
}

#[test]
fn encode_decode_loadaddr_relative_neg_64bits() {
    let encoder = LayoutHelper::new();
    let encoded = encoder
        .begin_encode("loadaddr")
        .encode("num bytes", 8)
        .encode("mode", 2)
        .encode("operand", 453)
        .make();

    let decoded = encoder.begin_decode(encoded).decode();

    assert_eq!(
        decoded,
        Instruction::LoadAddress {
            bytes: NumberOfBytes::Bytes8,
            mode: LoadStoreAddressingMode::RelativeBackward,
            operand: 453
        }
    );

    let reencoded = encoder.encode_instruction(&decoded);
    assert_eq!(reencoded, encoded);

    let redecoded = encoder.begin_decode(reencoded).decode();
    assert_eq!(redecoded, decoded);
}

#[test]
fn encode_decode_loadaddr_absolute_8bits() {
    let encoder = LayoutHelper::new();
    let encoded = encoder
        .begin_encode("loadaddr")
        .encode("num bytes", 1)
        .encode("mode", 3)
        .encode("operand", 123)
        .make();

    let decoded = encoder.begin_decode(encoded).decode();

    assert_eq!(
        decoded,
        Instruction::LoadAddress {
            bytes: NumberOfBytes::Bytes1,
            mode: LoadStoreAddressingMode::Absolute,
            operand: 123
        }
    );

    let reencoded = encoder.encode_instruction(&decoded);
    assert_eq!(reencoded, encoded);

    let redecoded = encoder.begin_decode(reencoded).decode();
    assert_eq!(redecoded, decoded);
}

#[test]
fn encode_decode_storeaddr_stack_32bits() {
    let encoder = LayoutHelper::new();
    let encoded = encoder
        .begin_encode("storeaddr")
        .encode("num bytes", 2)
        .encode("mode", 0)
        .make();

    let decoded = encoder.begin_decode(encoded).decode();

    assert_eq!(
        decoded,
        Instruction::StoreAddress {
            bytes: NumberOfBytes::Bytes2,
            mode: LoadStoreAddressingMode::Stack,
            operand: 0
        }
    );

    let reencoded = encoder.encode_instruction(&decoded);
    assert_eq!(reencoded, encoded);

    let redecoded = encoder.begin_decode(reencoded).decode();
    assert_eq!(redecoded, decoded);
}

#[test]
fn encode_decode_storeaddr_relative_pos_32bits() {
    let encoder = LayoutHelper::new();
    let encoded = encoder
        .begin_encode("storeaddr")
        .encode("num bytes", 2)
        .encode("mode", 1)
        .encode("operand", 45)
        .make();

    let decoded = encoder.begin_decode(encoded).decode();

    assert_eq!(
        decoded,
        Instruction::StoreAddress {
            bytes: NumberOfBytes::Bytes2,
            mode: LoadStoreAddressingMode::RelativeForward,
            operand: 45
        }
    );

    let reencoded = encoder.encode_instruction(&decoded);
    assert_eq!(reencoded, encoded);

    let redecoded = encoder.begin_decode(reencoded).decode();
    assert_eq!(redecoded, decoded);
}

#[test]
fn encode_decode_storeaddr_relative_neg_64bits() {
    let encoder = LayoutHelper::new();
    let encoded = encoder
        .begin_encode("storeaddr")
        .encode("num bytes", 8)
        .encode("mode", 2)
        .encode("operand", 453)
        .make();

    let decoded = encoder.begin_decode(encoded).decode();

    assert_eq!(
        decoded,
        Instruction::StoreAddress {
            bytes: NumberOfBytes::Bytes8,
            mode: LoadStoreAddressingMode::RelativeBackward,
            operand: 453
        }
    );

    let reencoded = encoder.encode_instruction(&decoded);
    assert_eq!(reencoded, encoded);

    let redecoded = encoder.begin_decode(reencoded).decode();
    assert_eq!(redecoded, decoded);
}

#[test]
fn encode_decode_storeaddr_absolute_8bits() {
    let encoder = LayoutHelper::new();
    let encoded = encoder
        .begin_encode("storeaddr")
        .encode("num bytes", 1)
        .encode("mode", 3)
        .encode("operand", 123)
        .make();

    let decoded = encoder.begin_decode(encoded).decode();

    assert_eq!(
        decoded,
        Instruction::StoreAddress {
            bytes: NumberOfBytes::Bytes1,
            mode: LoadStoreAddressingMode::Absolute,
            operand: 123
        }
    );

    let reencoded = encoder.encode_instruction(&decoded);
    assert_eq!(reencoded, encoded);

    let redecoded = encoder.begin_decode(reencoded).decode();
    assert_eq!(redecoded, decoded);
}

#[test]
fn encode_decode_shift_left_stack() {
    let encoder = LayoutHelper::new();
    let encoded = encoder
        .begin_encode("shift")
        .encode("num bytes", 4)
        .encode("direction", 0)
        .encode("mode", 0)
        .encode("keep sign", 0)
        .make();

    let decoded = encoder.begin_decode(encoded).decode();

    assert_eq!(
        decoded,
        Instruction::BitShift {
            bytes: NumberOfBytes::Bytes4,
            direction: ShiftDirection::Left,
            mode: OperationMode::PureStack,
            sign: SignFlag::Unsigned,
            operand: 0
        }
    );

    let reencoded = encoder.encode_instruction(&decoded);
    assert_eq!(reencoded, encoded);

    let redecoded = encoder.begin_decode(reencoded).decode();
    assert_eq!(redecoded, decoded);
}

#[test]
fn encode_decode_shift_right_immediate() {
    let encoder = LayoutHelper::new();
    let encoded = encoder
        .begin_encode("shift")
        .encode("num bytes", 8)
        .encode("direction", 1)
        .encode("mode", 1)
        .encode("operand", 12)
        .encode("keep sign", 1)
        .make();

    let decoded = encoder.begin_decode(encoded).decode();

    assert_eq!(
        decoded,
        Instruction::BitShift {
            bytes: NumberOfBytes::Bytes8,
            direction: ShiftDirection::Right,
            mode: OperationMode::StackAndImmediate,
            sign: SignFlag::Signed,
            operand: 12
        }
    );

    let reencoded = encoder.encode_instruction(&decoded);
    assert_eq!(reencoded, encoded);

    let redecoded = encoder.begin_decode(reencoded).decode();
    assert_eq!(redecoded, decoded);
}

#[test]
fn encode_decode_bitwise_operation_and_stack() {
    let encoder = LayoutHelper::new();
    let encoded = encoder
        .begin_encode("bitwise")
        .encode("num bytes", 4)
        .encode("operation", 0b00)
        .encode("mode", 0)
        .encode("sign", 0)
        .encode_bytes("operand", &[0, 0])
        .make();

    let decoded = encoder.begin_decode(encoded).decode();

    assert_eq!(
        decoded,
        Instruction::Bitwise {
            bytes: NumberOfBytes::Bytes4,
            operation: BitwiseOperation::And,
            mode: OperationMode::PureStack,
            sign: SignFlag::Unsigned,
            operand: [0, 0]
        }
    );

    let reencoded = encoder.encode_instruction(&decoded);
    assert_eq!(reencoded, encoded);

    let redecoded = encoder.begin_decode(reencoded).decode();
    assert_eq!(redecoded, decoded);
}

#[test]
fn encode_decode_bitwise_operation_and_stack_signed() {
    let encoder = LayoutHelper::new();
    let encoded = encoder
        .begin_encode("bitwise")
        .encode("num bytes", 4)
        .encode("operation", 0b00)
        .encode("mode", 0)
        .encode("sign", 1)
        .encode_bytes("operand", &[0, 0])
        .make();

    let decoded = encoder.begin_decode(encoded).decode();

    assert_eq!(
        decoded,
        Instruction::Bitwise {
            bytes: NumberOfBytes::Bytes4,
            operation: BitwiseOperation::And,
            mode: OperationMode::PureStack,
            sign: SignFlag::Signed,
            operand: [0, 0]
        }
    );

    let reencoded = encoder.encode_instruction(&decoded);
    assert_eq!(reencoded, encoded);

    let redecoded = encoder.begin_decode(reencoded).decode();
    assert_eq!(redecoded, decoded);
}

#[test]
fn encode_decode_bitwise_operation_or_immediate_unsigned() {
    let encoder = LayoutHelper::new();
    let encoded = encoder
        .begin_encode("bitwise")
        .encode("num bytes", 4)
        .encode("operation", 0b01)
        .encode("sign", 0)
        .encode("mode", 1)
        .encode_bytes("operand", &123u16.to_le_bytes())
        .make();

    let decoded = encoder.begin_decode(encoded).decode();

    assert_eq!(
        decoded,
        Instruction::Bitwise {
            bytes: NumberOfBytes::Bytes4,
            operation: BitwiseOperation::Or,
            mode: OperationMode::StackAndImmediate,
            sign: SignFlag::Unsigned,
            operand: 123u16.to_le_bytes()
        }
    );

    let reencoded = encoder.encode_instruction(&decoded);
    assert_eq!(reencoded, encoded);

    let redecoded = encoder.begin_decode(reencoded).decode();
    assert_eq!(redecoded, decoded);
}

#[test]
fn encode_decode_bitwise_64_operation_xor_immediate() {
    let encoder = LayoutHelper::new();
    let encoded = encoder
        .begin_encode("bitwise")
        .encode("num bytes", 8)
        .encode("operation", 0b10)
        .encode("sign", 0)
        .encode("mode", 1)
        .encode_bytes("operand", &65535u16.to_le_bytes())
        .make();

    let decoded = encoder.begin_decode(encoded).decode();

    assert_eq!(
        decoded,
        Instruction::Bitwise {
            bytes: NumberOfBytes::Bytes8,
            operation: BitwiseOperation::Xor,
            mode: OperationMode::StackAndImmediate,
            sign: SignFlag::Unsigned,
            operand: 65535u16.to_le_bytes()
        }
    );

    let reencoded = encoder.encode_instruction(&decoded);
    assert_eq!(reencoded, encoded);

    let redecoded = encoder.begin_decode(reencoded).decode();
    assert_eq!(redecoded, decoded);
}

#[test]
fn encode_decode_arithmetic_operation_add_32bits_signed_stack() {
    let encoder = LayoutHelper::new();
    let encoded = encoder
        .begin_encode("integer_binary_op")
        .encode("num bytes", 4)
        .encode("operation", 0b000)
        .encode("sign", 1)
        .encode("mode", 0)
        .make();

    let decoded = encoder.begin_decode(encoded).decode();

    assert_eq!(
        decoded,
        Instruction::IntegerArithmetic {
            bytes: NumberOfBytes::Bytes4,
            sign: SignFlag::Signed,
            operation: ArithmeticOperation::Sum,
            mode: OperationMode::PureStack,
            operand: 0u16.to_le_bytes()
        }
    );

    let reencoded = encoder.encode_instruction(&decoded);
    assert_eq!(reencoded, encoded);

    let redecoded = encoder.begin_decode(reencoded).decode();
    assert_eq!(redecoded, decoded);
}

#[test]
fn encode_decode_arithmetic_operation_mul_64bits_unsigned_imm() {
    let encoder = LayoutHelper::new();
    let encoded = encoder
        .begin_encode("integer_binary_op")
        .encode("num bytes", 8)
        .encode("operation", 0b010)
        .encode("sign", 0)
        .encode("mode", 1)
        .encode("operand", 65535)
        .make();

    let decoded = encoder.begin_decode(encoded).decode();

    assert_eq!(
        decoded,
        Instruction::IntegerArithmetic {
            bytes: NumberOfBytes::Bytes8,
            sign: SignFlag::Unsigned,
            operation: ArithmeticOperation::Multiply,
            mode: OperationMode::StackAndImmediate,
            operand: 65535u16.to_le_bytes()
        }
    );

    let reencoded = encoder.encode_instruction(&decoded);
    assert_eq!(reencoded, encoded);

    let redecoded = encoder.begin_decode(reencoded).decode();
    assert_eq!(redecoded, decoded);
}

#[test]
fn encode_decode_arithmetic_operation_pow_8bits_unsigned_imm() {
    let encoder = LayoutHelper::new();
    let encoded = encoder
        .begin_encode("integer_binary_op")
        .encode("num bytes", 1)
        .encode("operation", 0b100)
        .encode("sign", 0)
        .encode("mode", 1)
        .encode("operand", 15)
        .make();

    let decoded = encoder.begin_decode(encoded).decode();

    assert_eq!(
        decoded,
        Instruction::IntegerArithmetic {
            bytes: NumberOfBytes::Bytes1,
            sign: SignFlag::Unsigned,
            operation: ArithmeticOperation::Power,
            mode: OperationMode::StackAndImmediate,
            operand: 15i16.to_le_bytes()
        }
    );

    let reencoded = encoder.encode_instruction(&decoded);
    assert_eq!(reencoded, encoded);

    let redecoded = encoder.begin_decode(reencoded).decode();
    assert_eq!(redecoded, decoded);
}

#[test]
fn encode_decode_compare_operation_eq_32bits_unsigned_imm() {
    let encoder = LayoutHelper::new();
    let encoded = encoder
        .begin_encode("integer_compare")
        .encode("num bytes", 4)
        .encode("operation", 0b000)
        .encode("sign", 0)
        .encode("mode", 1)
        .encode_bytes("operand", &15u16.to_le_bytes())
        .make();

    let decoded = encoder.begin_decode(encoded).decode();

    assert_eq!(
        decoded,
        Instruction::IntegerCompare {
            bytes: NumberOfBytes::Bytes4,
            sign: SignFlag::Unsigned,
            operation: CompareOperation::Equals,
            mode: OperationMode::StackAndImmediate,
            operand: 15u16.to_le_bytes()
        }
    );

    let reencoded = encoder.encode_instruction(&decoded);
    assert_eq!(reencoded, encoded);

    let redecoded = encoder.begin_decode(reencoded).decode();
    assert_eq!(redecoded, decoded);
}

#[test]
fn encode_decode_compare_operation_gte_16bits_signed_stack() {
    let encoder = LayoutHelper::new();
    let encoded = encoder
        .begin_encode("integer_compare")
        .encode("num bytes", 2)
        .encode("operation", 0b101)
        .encode("sign", 1)
        .encode("mode", 0)
        .make();

    let decoded = encoder.begin_decode(encoded).decode();

    assert_eq!(
        decoded,
        Instruction::IntegerCompare {
            bytes: NumberOfBytes::Bytes2,
            sign: SignFlag::Signed,
            operation: CompareOperation::GreaterThanOrEquals,
            mode: OperationMode::PureStack,
            operand: [0,0]
        }
    );

    let reencoded = encoder.encode_instruction(&decoded);
    assert_eq!(reencoded, encoded);

    let redecoded = encoder.begin_decode(reencoded).decode();
    assert_eq!(redecoded, decoded);
}

#[test]
fn encode_decode_arithmetic_operation_add_float_32bits() {
    let encoder = LayoutHelper::new();
    let encoded = encoder
        .begin_encode("float_binary_op")
        .encode("num bytes", 4)
        .encode("operation", 0b000)
        .make();

    let decoded = encoder.begin_decode(encoded).decode();

    assert_eq!(
        decoded,
        Instruction::FloatArithmetic {
            bytes: NumberOfBytes::Bytes4,
            operation: ArithmeticOperation::Sum
        }
    );

    let reencoded = encoder.encode_instruction(&decoded);
    assert_eq!(reencoded, encoded);

    let redecoded = encoder.begin_decode(reencoded).decode();
    assert_eq!(redecoded, decoded);
}

#[test]
fn encode_decode_arithmetic_operation_div_float_64bits() {
    let encoder = LayoutHelper::new();
    let encoded = encoder
        .begin_encode("float_binary_op")
        .encode("num bytes", 8)
        .encode("operation", 0b011)
        .make();

    let decoded = encoder.begin_decode(encoded).decode();

    assert_eq!(
        decoded,
        Instruction::FloatArithmetic {
            bytes: NumberOfBytes::Bytes8,
            operation: ArithmeticOperation::Divide
        }
    );

    let reencoded = encoder.encode_instruction(&decoded);
    assert_eq!(reencoded, encoded);

    let redecoded = encoder.begin_decode(reencoded).decode();
    assert_eq!(redecoded, decoded);
}

#[test]
fn encode_decode_compare_operation_eq_float_32bits() {
    let encoder = LayoutHelper::new();
    let encoded = encoder
        .begin_encode("float_compare_op")
        .encode("num bytes", 4)
        .encode("operation", 0b000)
        .make();

    let decoded = encoder.begin_decode(encoded).decode();

    assert_eq!(
        decoded,
        Instruction::FloatCompare {
            bytes: NumberOfBytes::Bytes4,
            operation: CompareOperation::Equals
        }
    );

    let reencoded = encoder.encode_instruction(&decoded);
    assert_eq!(reencoded, encoded);

    let redecoded = encoder.begin_decode(reencoded).decode();
    assert_eq!(redecoded, decoded);
}

#[test]
fn encode_decode_compare_operation_gte_float_64bits() {
    let encoder = LayoutHelper::new();
    let encoded = encoder
        .begin_encode("float_compare_op")
        .encode("num bytes", 8)
        .encode("operation", 0b101)
        .make();

    let decoded = encoder.begin_decode(encoded).decode();

    assert_eq!(
        decoded,
        Instruction::FloatCompare {
            bytes: NumberOfBytes::Bytes8,
            operation: CompareOperation::GreaterThanOrEquals
        }
    );

    let reencoded = encoder.encode_instruction(&decoded);
    assert_eq!(reencoded, encoded);

    let redecoded = encoder.begin_decode(reencoded).decode();
    assert_eq!(redecoded, decoded);
}

#[test]
fn encode_decode_push_reg_bp() {
    let encoder = LayoutHelper::new();
    let encoded = encoder
        .begin_encode("push_reg")
        .encode("register", 0b00)
        .make();

    let decoded = encoder.begin_decode(encoded).decode();

    assert_eq!(
        decoded,
        Instruction::PushFromRegister {
            control_register: ControlRegister::BasePointer
        }
    );

    let reencoded = encoder.encode_instruction(&decoded);
    assert_eq!(reencoded, encoded);

    let redecoded = encoder.begin_decode(reencoded).decode();
    assert_eq!(redecoded, decoded);
}

#[test]
fn encode_decode_pop_reg_ip() {
    let encoder = LayoutHelper::new();
    let encoded = encoder
        .begin_encode("pop_reg")
        .encode("register", 0b10)
        .make();

    let decoded = encoder.begin_decode(encoded).decode();

    assert_eq!(
        decoded,
        Instruction::PopIntoRegister {
            control_register: ControlRegister::InstructionPointer
        }
    );

    let reencoded = encoder.encode_instruction(&decoded);
    assert_eq!(reencoded, encoded);

    let redecoded = encoder.begin_decode(reencoded).decode();
    assert_eq!(redecoded, decoded);
}

#[test]
fn encode_decode_pop_stack() {
    let encoder = LayoutHelper::new();
    let encoded = encoder.begin_encode("pop").encode("num bytes", 8).make();

    let decoded = encoder.begin_decode(encoded).decode();

    assert_eq!(
        decoded,
        Instruction::Pop {
            bytes: NumberOfBytes::Bytes8
        }
    );

    let reencoded = encoder.encode_instruction(&decoded);
    assert_eq!(reencoded, encoded);

    let redecoded = encoder.begin_decode(reencoded).decode();
    assert_eq!(redecoded, decoded);
}

#[test]
fn encode_decode_stackoffset() {
    let encoder = LayoutHelper::new();
    let encoded = encoder
        .begin_encode("stackoffset")
        .encode("num bytes", 12347)
        .make();

    let decoded = encoder.begin_decode(encoded).decode();

    assert_eq!(decoded, Instruction::StackOffset { bytes: 12347 });

    let reencoded = encoder.encode_instruction(&decoded);
    assert_eq!(reencoded, encoded);

    let redecoded = encoder.begin_decode(reencoded).decode();
    assert_eq!(redecoded, decoded);
}

#[test]
fn encode_decode_call_from_operand() {
    let encoder = LayoutHelper::new();
    let encoded = encoder
        .begin_encode("call")
        .encode("source", 0)
        .encode("offset", 151)
        .make();

    let decoded = encoder.begin_decode(encoded).decode();

    assert_eq!(
        decoded,
        Instruction::Call {
            source: AddressJumpAddressSource::FromOperand,
            offset: 151
        }
    );

    let reencoded = encoder.encode_instruction(&decoded);
    assert_eq!(reencoded, encoded);

    let redecoded = encoder.begin_decode(reencoded).decode();
    assert_eq!(redecoded, decoded);
}

#[test]
fn encode_decode_call_from_stack() {
    let encoder = LayoutHelper::new();
    let encoded = encoder.begin_encode("call").encode("source", 1).make();

    let decoded = encoder.begin_decode(encoded).decode();

    assert_eq!(
        decoded,
        Instruction::Call {
            source: AddressJumpAddressSource::PopFromStack,
            offset: 0
        }
    );

    let reencoded = encoder.encode_instruction(&decoded);
    assert_eq!(reencoded, encoded);

    let redecoded = encoder.begin_decode(reencoded).decode();
    assert_eq!(redecoded, decoded);
}

#[test]
fn encode_decode_return() {
    let encoder = LayoutHelper::new();
    let encoded = encoder.begin_encode("return").make();
    let decoded = encoder.begin_decode(encoded).decode();

    assert_eq!(decoded, Instruction::Return);

    let reencoded = encoder.encode_instruction(&decoded);
    assert_eq!(reencoded, encoded);

    let redecoded = encoder.begin_decode(reencoded).decode();
    assert_eq!(redecoded, decoded);
}

#[test]
fn truncate_to_bits_keeps_the_low_bits() {
    assert_eq!(truncate_to_bits(0xffff_ffff, 27), 0x07ff_ffff);
    assert_eq!(truncate_to_bits(0b1011_0110, 4), 0b0110);
    assert_eq!(truncate_to_bits(0xdead_beef, 32), 0xdead_beef);
    assert_eq!(truncate_to_bits(0xdead_beef, 1), 1);
}

#[test]
fn delete_msb_bits_clears_the_high_bits() {
    assert_eq!(delete_msb_bits(0xffff_ffff, 5), 0x07ff_ffff);
    assert_eq!(delete_msb_bits(0xdead_beef, 0), 0xdead_beef);
    assert_eq!(delete_msb_bits(0xdead_beef, 31), 1);
}

#[test]
fn stackoffset_has_its_pseudoop_above_27_bits() {
    let word = encode_stackoffset(12347);
    assert_eq!(word, 0x6800_0000 + 12347);
    assert_eq!(word >> 27, 0b01101);
    assert_eq!(word & 0x07ff_ffff, 12347);
    // an offset of more than 27 bits is cut
    assert_eq!(encode_stackoffset(0xffff_ffff), 0x6fff_ffff);
}

#[test]
fn assembly_is_encoded_instruction_by_instruction() {
    assert_eq!(encode_instruction(&AssemblyInstruction::StackOffset { bytes: 8 }), 0x6800_0008);
    assert_eq!(encode_instruction(&AssemblyInstruction::Return), 0);
    let code = [
        AssemblyInstruction::StackOffset { bytes: 1 },
        AssemblyInstruction::Noop,
        AssemblyInstruction::StackOffset { bytes: 2 },
    ];
    assert_eq!(encode_asm(&code), vec![0x6800_0001, 0, 0x6800_0002]);
    assert_eq!(encode_asm(&[]), Vec::<u32>::new());
}

#[test]
fn stackoffset_full_range() {
    let encoder = LayoutHelper::new();
    let encoded = encoder.encode_instruction(&Instruction::StackOffset { bytes: 12347 });
    assert_eq!(encoded >> 27, 0b01101);
    assert_eq!(encoded & 0x07ff_ffff, 12347);
    assert_eq!(encoded, encode_stackoffset(12347));
    let decoded = encoder.begin_decode(encoded).decode();
    assert_eq!(decoded, Instruction::StackOffset { bytes: 12347 });
    // the largest operand uses all 27 bits
    let largest = encoder.encode_instruction(&Instruction::StackOffset { bytes: 0x07ff_ffff });
    assert_eq!(largest, 0x6fff_ffff);
    assert_eq!(
        encoder.begin_decode(largest).decode(),
        Instruction::StackOffset { bytes: 0x07ff_ffff }
    );
}

#[test]
fn push_immediate_word_is_laid_out_part_by_part() {
    let encoder = LayoutHelper::new();
    let encoded = encoder
        .begin_encode("push_imm")
        .encode("num bytes", 4)
        .encode("lshift", 16)
        .encode_bytes("immediate lsb", &25u16.to_le_bytes())
        .make();
    // 00001 | 10 | 01 | 0000000000011001 | 0000000
    assert_eq!(encoded, (1 << 27) | (0b10 << 25) | (0b01 << 23) | (25 << 7));
}

#[test]
fn pseudoops_are_those_of_the_wire_format() {
    let table = get_all_instruction_layouts();
    let names = [
        "noop",
        "push_imm",
        "loadaddr",
        "storeaddr",
        "shift",
        "bitwise",
        "integer_binary_op",
        "integer_compare",
        "float_binary_op",
        "float_compare_op",
        "push_reg",
        "pop_reg",
        "pop",
        "stackoffset",
        "call",
        "return",
    ];
    assert_eq!(table.table.len(), 16);
    for (op, name) in names.iter().enumerate() {
        let layout = table.get(name).unwrap();
        assert_eq!(layout.instruction_pseudoop as usize, op);
        assert!(layout.is_valid());
        assert_eq!(table.get_by_pseudoop(op as u8).unwrap(), layout);
        let bits: u32 = layout.layout.iter().map(|p| p.length as u32).sum();
        assert!(bits <= 27);
    }
    assert!(table.get("jz").is_none());
    assert!(table.get_by_pseudoop(16).is_none());
    assert!(table.get_by_pseudoop(200).is_none());
}

#[test]
fn every_standard_instruction_round_trips() {
    let encoder = LayoutHelper::new();
    let widths = [
        NumberOfBytes::Bytes1,
        NumberOfBytes::Bytes2,
        NumberOfBytes::Bytes4,
        NumberOfBytes::Bytes8,
    ];
    let mut instructions = vec![Instruction::Noop, Instruction::Return];
    for bytes in widths {
        instructions.push(Instruction::Pop { bytes });
        instructions.push(Instruction::PushImmediate {
            bytes,
            lshift: LeftShift::Shift48,
            immediate: [0xab, 0xcd],
        });
        instructions.push(Instruction::LoadAddress {
            bytes,
            mode: LoadStoreAddressingMode::Absolute,
            operand: 0x7f_ffff,
        });
        instructions.push(Instruction::StoreAddress {
            bytes,
            mode: LoadStoreAddressingMode::RelativeBackward,
            operand: 1,
        });
        instructions.push(Instruction::BitShift {
            bytes,
            direction: ShiftDirection::Right,
            mode: OperationMode::StackAndImmediate,
            sign: SignFlag::Signed,
            operand: 255,
        });
        instructions.push(Instruction::Bitwise {
            bytes,
            operation: BitwiseOperation::Xor,
            sign: SignFlag::Signed,
            mode: OperationMode::PureStack,
            operand: [0xff, 0xff],
        });
        instructions.push(Instruction::IntegerArithmetic {
            bytes,
            operation: ArithmeticOperation::Power,
            sign: SignFlag::Unsigned,
            mode: OperationMode::StackAndImmediate,
            operand: [1, 2],
        });
        instructions.push(Instruction::IntegerCompare {
            bytes,
            operation: CompareOperation::LessThanOrEquals,
            sign: SignFlag::Signed,
            mode: OperationMode::StackAndImmediate,
            operand: [3, 4],
        });
        instructions.push(Instruction::FloatArithmetic {
            bytes,
            operation: ArithmeticOperation::Subtract,
        });
        instructions.push(Instruction::FloatCompare {
            bytes,
            operation: CompareOperation::NotEquals,
        });
    }
    instructions.push(Instruction::PushFromRegister {
        control_register: ControlRegister::StackPointer,
    });
    instructions.push(Instruction::PopIntoRegister {
        control_register: ControlRegister::BasePointer,
    });
    instructions.push(Instruction::Call {
        source: AddressJumpAddressSource::PopFromStack,
        offset: 0x3ff_ffff,
    });
    instructions.push(Instruction::StackOffset { bytes: 0 });
    for instruction in instructions {
        let word = encoder.encode_instruction(&instruction);
        let decoded = encoder.begin_decode(word).decode();
        assert_eq!(decoded, instruction);
        assert_eq!(encoder.encode_instruction(&decoded), word);
    }
    assert_eq!(encoder.encode_instruction(&Instruction::Noop), 0);
    assert_eq!(encoder.encode_instruction(&Instruction::Return), 0b01111 << 27);
}

#[test]
fn a_value_wider_than_its_part_is_cut() {
    let encoder = LayoutHelper::new();
    let cut = encoder.begin_encode("shift").encode("operand", 0x1ff).make();
    let whole = encoder.begin_encode("shift").encode("operand", 0xff).make();
    assert_eq!(cut, whole);
    assert_eq!(cut, (0b00100 << 27) | (0xff << 14));
}

#[test]
fn encode_bytes_pads_with_zero_bytes() {
    assert_eq!(le_bytes_to_u32(&[]), 0);
    assert_eq!(le_bytes_to_u32(&[0x12]), 0x12);
    assert_eq!(le_bytes_to_u32(&[0x34, 0x12]), 0x1234);
    assert_eq!(le_bytes_to_u32(&[0x78, 0x56, 0x34, 0x12]), 0x1234_5678);
    assert_eq!(le_pair_from_u32(0x1234), [0x34, 0x12]);
    assert_eq!(le_pair_from_u32(0xabcd_1234), [0x34, 0x12]);
    let encoder = LayoutHelper::new();
    let from_bytes = encoder.begin_encode("stackoffset").encode_bytes("num bytes", &[1, 2, 3]).make();
    let from_value = encoder.begin_encode("stackoffset").encode("num bytes", 0x03_0201).make();
    assert_eq!(from_bytes, from_value);
}

#[test]
fn get_part_gives_the_bits_and_the_value() {
    let table = get_all_instruction_layouts();
    let encoder = LayoutHelper { table };
    let word = encoder
        .begin_encode("push_imm")
        .encode("num bytes", 8)
        .encode("lshift", 32)
        .encode("immediate lsb", 0xbeef)
        .make();
    let layout = encoder.table.get("push_imm").unwrap();
    assert_eq!(layout.get_part("num bytes", word), (0b11, 8));
    assert_eq!(layout.get_part("lshift", word), (0b10, 32));
    assert_eq!(layout.get_part("immediate lsb", word), (0xbeef, 0xbeef));
    assert_eq!(layout.locate("lshift"), Some((1, 7)));
    assert_eq!(layout.locate("no such part"), None);
}

#[test]
fn the_table_refuses_what_would_make_it_ambiguous() {
    let mut table = InstructionTable::new();
    let jump = BitLayout::new(16)
        .with_part(
            "source",
            1,
            PartType::BitPattern(vec![
                BitPattern { value: 0, pattern: 0 },
                BitPattern { value: 1, pattern: 1 },
            ]),
        )
        .with_part("offset", 26, PartType::Immediate);
    assert!(table.add("jz", jump.clone()));
    // the name is taken
    assert!(!table.add("jz", BitLayout::new(17)));
    // the pseudo-op is taken
    assert!(!table.add("jnz", jump.clone()));
    // more than 27 bits of parts
    assert!(!table.add("wide", BitLayout::new(18).with_part("a", 28, PartType::Immediate)));
    // a pseudo-op of more than five bits
    assert!(!table.add("far", BitLayout::new(32)));
    // a value with two patterns
    let twice = PartType::BitPattern(vec![
        BitPattern { value: 7, pattern: 0 },
        BitPattern { value: 7, pattern: 1 },
    ]);
    assert!(!table.add("twice", BitLayout::new(19).with_part("a", 1, twice)));
    // a pattern with two values
    let shared = PartType::BitPattern(vec![
        BitPattern { value: 1, pattern: 0 },
        BitPattern { value: 2, pattern: 0 },
    ]);
    assert!(!table.add("shared", BitLayout::new(20).with_part("a", 1, shared)));
    assert_eq!(table.table.len(), 1);
    assert_eq!(table.get_by_pseudoop(16).unwrap(), &jump);

    // with a layout for it, a jump can be encoded
    let encoder = LayoutHelper { table };
    let word = encoder.encode_instruction(&Instruction::JumpIfZero {
        source: AddressJumpAddressSource::PopFromStack,
        offset: 5,
    });
    assert_eq!(word, (16 << 27) | (1 << 26) | 5);
}

#[test]
fn patterns_and_operand_enumerations_agree() {
    assert_eq!(NumberOfBytes::Bytes4.get_bytes(), 4);
    assert_eq!(NumberOfBytes::Bytes4.get_bit_pattern(), 2);
    assert_eq!(NumberOfBytes::from_pattern(3), NumberOfBytes::Bytes8);
    assert_eq!(LeftShift::Shift32.get_shift_size(), 32);
    assert_eq!(LeftShift::from_pattern(0), LeftShift::NoShift);
    assert_eq!(ArithmeticOperation::from_pattern(1), ArithmeticOperation::Subtract);
    assert_eq!(CompareOperation::GreaterThan.get_bit_pattern(), 4);
    assert_eq!(ControlRegister::from_pattern(1), ControlRegister::StackPointer);
    assert_eq!(BitwiseOperation::Xor.get_bit_pattern(), 2);
}

#[test]
fn encoder_and_decoder_can_be_used_on_their_own() {
    let table = get_all_instruction_layouts();
    let layout = table.get("pop").unwrap();
    let mut encoder = InstructionEncoder { layout, current: 12 << 27 };
    encoder.encode("num bytes", 2);
    assert_eq!(encoder.make(), (12 << 27) | (1 << 25));
    let decoder = InstructionDecoder { layout, instruction: encoder.make() };
    assert_eq!(decoder.decode(), Instruction::Pop { bytes: NumberOfBytes::Bytes2 });
}

#[test]
fn what_the_table_cannot_code_is_refused() {
    let encoder = LayoutHelper::new();
    let jump =
        Instruction::JumpIfZero { source: AddressJumpAddressSource::FromOperand, offset: 1 };
    assert!(!encoder.can_encode(&jump));
    assert_eq!(encoder.try_encode_instruction(&jump), None);
    assert_eq!(encoder.try_encode_instruction(&Instruction::Exit), None);
    let pop = Instruction::Pop { bytes: NumberOfBytes::Bytes4 };
    assert!(encoder.can_encode(&pop));
    assert_eq!(encoder.try_encode_instruction(&pop), Some((12 << 27) | (2 << 25)));
    assert_eq!(encoder.try_decode((12 << 27) | (2 << 25)), Some(pop));
    // no layout has the pseudo-op 31
    assert_eq!(encoder.try_decode(31 << 27), None);
    // the bitwise operations have no pattern 11
    assert_eq!(encoder.try_decode((5 << 27) | (0b11 << 23)), None);
    assert!(!encoder.begin_decode((5 << 27) | (0b11 << 23)).can_decode());
    // the registers have no pattern 11
    assert_eq!(encoder.try_decode((10 << 27) | (0b11 << 25)), None);
    assert_eq!(
        encoder.try_decode((10 << 27) | (0b10 << 25)),
        Some(Instruction::PushFromRegister {
            control_register: ControlRegister::InstructionPointer
        })
    );
    let layout = encoder.table.get("push_imm").unwrap();
    assert!(layout.accepts("num bytes", 8));
    assert!(!layout.accepts("num bytes", 3));
    assert!(layout.accepts("immediate lsb", 0xffff_ffff));
    assert!(!layout.accepts("operand", 0));
    assert!(layout.reads("lshift", 0));
    assert!(!layout.reads("operand", 0));
}

#[test]
fn a_table_can_be_checked() {
    let mut table = get_all_instruction_layouts();
    assert!(table.is_valid());
    assert!(InstructionTable::new().is_valid());
    // an entry that the reverse index does not know
    let extra = table.table[1].clone();
    table.table.push(extra);
    assert!(!table.is_valid());
    table.table.pop();
    assert!(table.is_valid());
    // a reverse index that points to the wrong layout
    table.pseudoops[3] = Some(2);
    assert!(!table.is_valid());
    table.pseudoops[3] = Some(3);
    assert!(table.is_valid());
    // a pseudo-op that the reverse index does not list
    table.pseudoops[15] = None;
    assert!(!table.is_valid());
}
