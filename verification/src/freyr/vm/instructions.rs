//! The instruction set: the operand enumerations with their bit patterns,
//! the semantic `Instruction`, and the declarative layouts that place every
//! operand inside a 32-bit word.
use vstd::prelude::*;
use crate::text::str_eq;

verus! {

/// Operand width of an instruction, in bytes.
#[derive(Clone, Copy, Debug, PartialEq, Eq, Structural)]
pub enum NumberOfBytes {
    Bytes1,
    Bytes2,
    Bytes4,
    Bytes8,
}

impl NumberOfBytes {
    /// The width in bytes: 1, 2, 4 or 8.
    pub open spec fn bytes(self) -> u8 {
        match self {
            NumberOfBytes::Bytes1 => 1,
            NumberOfBytes::Bytes2 => 2,
            NumberOfBytes::Bytes4 => 4,
            NumberOfBytes::Bytes8 => 8,
        }
    }

    /// The two-bit code of the width.
    pub open spec fn pattern(self) -> u8 {
        match self {
            NumberOfBytes::Bytes1 => 0,
            NumberOfBytes::Bytes2 => 1,
            NumberOfBytes::Bytes4 => 2,
            NumberOfBytes::Bytes8 => 3,
        }
    }

    /// The width whose code is `pattern`.
    pub open spec fn of_pattern(pattern: u8) -> Self {
        if pattern == 0 {
            NumberOfBytes::Bytes1
        } else if pattern == 1 {
            NumberOfBytes::Bytes2
        } else if pattern == 2 {
            NumberOfBytes::Bytes4
        } else {
            NumberOfBytes::Bytes8
        }
    }

    /// The width in bytes.
    pub fn get_bytes(&self) -> (n: u8)
        ensures
            n == self.bytes(),
    {
        match self {
            NumberOfBytes::Bytes1 => 1,
            NumberOfBytes::Bytes2 => 2,
            NumberOfBytes::Bytes4 => 4,
            NumberOfBytes::Bytes8 => 8,
        }
    }

    /// The bit pattern that stands for the value.
    pub fn get_bit_pattern(&self) -> (p: u8)
        ensures
            p == self.pattern(),
    {
        match self {
            NumberOfBytes::Bytes1 => 0,
            NumberOfBytes::Bytes2 => 1,
            NumberOfBytes::Bytes4 => 2,
            NumberOfBytes::Bytes8 => 3,
        }
    }

    /// The value that the bit pattern stands for.
    pub fn from_pattern(pattern: u8) -> (w: Self)
        requires
            pattern < 4,
        ensures
            w == Self::of_pattern(pattern),
            w.pattern() == pattern,
    {
        if pattern == 0 {
            NumberOfBytes::Bytes1
        } else if pattern == 1 {
            NumberOfBytes::Bytes2
        } else if pattern == 2 {
            NumberOfBytes::Bytes4
        } else {
            NumberOfBytes::Bytes8
        }
    }
}

/// How far a pushed immediate is shifted to the left.
#[derive(Clone, Copy, Debug, PartialEq, Eq, Structural)]
pub enum LeftShift {
    NoShift,
    Shift16,
    Shift32,
    Shift48,
}

impl LeftShift {
    /// The shift distance in bits: 0, 16, 32 or 48.
    pub open spec fn shift_size(self) -> u8 {
        match self {
            LeftShift::NoShift => 0,
            LeftShift::Shift16 => 16,
            LeftShift::Shift32 => 32,
            LeftShift::Shift48 => 48,
        }
    }

    /// The two-bit code of the shift.
    pub open spec fn pattern(self) -> u8 {
        match self {
            LeftShift::NoShift => 0,
            LeftShift::Shift16 => 1,
            LeftShift::Shift32 => 2,
            LeftShift::Shift48 => 3,
        }
    }

    /// The shift whose code is `pattern`.
    pub open spec fn of_pattern(pattern: u8) -> Self {
        if pattern == 0 {
            LeftShift::NoShift
        } else if pattern == 1 {
            LeftShift::Shift16
        } else if pattern == 2 {
            LeftShift::Shift32
        } else {
            LeftShift::Shift48
        }
    }

    /// The shift distance in bits.
    pub fn get_shift_size(&self) -> (n: u8)
        ensures
            n == self.shift_size(),
    {
        match self {
            LeftShift::NoShift => 0,
            LeftShift::Shift16 => 16,
            LeftShift::Shift32 => 32,
            LeftShift::Shift48 => 48,
        }
    }

    /// The bit pattern that stands for the value.
    pub fn get_bit_pattern(&self) -> (p: u8)
        ensures
            p == self.pattern(),
    {
        match self {
            LeftShift::NoShift => 0,
            LeftShift::Shift16 => 1,
            LeftShift::Shift32 => 2,
            LeftShift::Shift48 => 3,
        }
    }

    /// The value that the bit pattern stands for.
    pub fn from_pattern(pattern: u8) -> (s: Self)
        requires
            pattern < 4,
        ensures
            s == Self::of_pattern(pattern),
            s.pattern() == pattern,
    {
        if pattern == 0 {
            LeftShift::NoShift
        } else if pattern == 1 {
            LeftShift::Shift16
        } else if pattern == 2 {
            LeftShift::Shift32
        } else {
            LeftShift::Shift48
        }
    }
}

/// Where a load or store finds its address.
#[derive(Clone, Copy, Debug, PartialEq, Eq, Structural)]
pub enum LoadStoreAddressingMode {
    Stack,
    RelativeForward,
    RelativeBackward,
    Absolute,
}

impl LoadStoreAddressingMode {
    /// How many bit patterns name a mode.
    pub open spec fn count() -> u8 {
        4
    }

    /// The bit pattern of the mode.
    pub open spec fn pattern(self) -> u8 {
        match self {
            LoadStoreAddressingMode::Stack => 0,
            LoadStoreAddressingMode::RelativeForward => 1,
            LoadStoreAddressingMode::RelativeBackward => 2,
            LoadStoreAddressingMode::Absolute => 3,
        }
    }

    /// The mode whose bit pattern is `pattern`.
    pub open spec fn of_pattern(pattern: u8) -> Self {
        if pattern == 0 {
            LoadStoreAddressingMode::Stack
        } else if pattern == 1 {
            LoadStoreAddressingMode::RelativeForward
        } else if pattern == 2 {
            LoadStoreAddressingMode::RelativeBackward
        } else {
            LoadStoreAddressingMode::Absolute
        }
    }

    /// The bit pattern that stands for the value.
    pub fn get_bit_pattern(&self) -> (p: u8)
        ensures
            p == self.pattern(),
            p < Self::count(),
    {
        match self {
            LoadStoreAddressingMode::Stack => 0,
            LoadStoreAddressingMode::RelativeForward => 1,
            LoadStoreAddressingMode::RelativeBackward => 2,
            LoadStoreAddressingMode::Absolute => 3,
        }
    }

    /// The value that the bit pattern stands for.
    pub fn from_pattern(pattern: u8) -> (v: Self)
        requires
            pattern < Self::count(),
        ensures
            v == Self::of_pattern(pattern),
            v.pattern() == pattern,
    {
        if pattern == 0 {
            LoadStoreAddressingMode::Stack
        } else if pattern == 1 {
            LoadStoreAddressingMode::RelativeForward
        } else if pattern == 2 {
            LoadStoreAddressingMode::RelativeBackward
        } else {
            LoadStoreAddressingMode::Absolute
        }
    }
}

/// Direction of a bit shift.
#[derive(Clone, Copy, Debug, PartialEq, Eq, Structural)]
pub enum ShiftDirection {
    Left,
    Right,
}

impl ShiftDirection {
    /// How many bit patterns name a direction.
    pub open spec fn count() -> u8 {
        2
    }

    /// The bit pattern of the direction.
    pub open spec fn pattern(self) -> u8 {
        match self {
            ShiftDirection::Left => 0,
            ShiftDirection::Right => 1,
        }
    }

    /// The direction whose bit pattern is `pattern`.
    pub open spec fn of_pattern(pattern: u8) -> Self {
        if pattern == 0 {
            ShiftDirection::Left
        } else {
            ShiftDirection::Right
        }
    }

    /// The bit pattern that stands for the value.
    pub fn get_bit_pattern(&self) -> (p: u8)
        ensures
            p == self.pattern(),
            p < Self::count(),
    {
        match self {
            ShiftDirection::Left => 0,
            ShiftDirection::Right => 1,
        }
    }

    /// The value that the bit pattern stands for.
    pub fn from_pattern(pattern: u8) -> (v: Self)
        requires
            pattern < Self::count(),
        ensures
            v == Self::of_pattern(pattern),
            v.pattern() == pattern,
    {
        if pattern == 0 {
            ShiftDirection::Left
        } else {
            ShiftDirection::Right
        }
    }
}

/// Whether the right operand comes from the stack or from the instruction word.
#[derive(Clone, Copy, Debug, PartialEq, Eq, Structural)]
pub enum OperationMode {
    PureStack,
    StackAndImmediate,
}

impl OperationMode {
    /// How many bit patterns name a mode.
    pub open spec fn count() -> u8 {
        2
    }

    /// The bit pattern of the mode.
    pub open spec fn pattern(self) -> u8 {
        match self {
            OperationMode::PureStack => 0,
            OperationMode::StackAndImmediate => 1,
        }
    }

    /// The mode whose bit pattern is `pattern`.
    pub open spec fn of_pattern(pattern: u8) -> Self {
        if pattern == 0 {
            OperationMode::PureStack
        } else {
            OperationMode::StackAndImmediate
        }
    }

    /// The bit pattern that stands for the value.
    pub fn get_bit_pattern(&self) -> (p: u8)
        ensures
            p == self.pattern(),
            p < Self::count(),
    {
        match self {
            OperationMode::PureStack => 0,
            OperationMode::StackAndImmediate => 1,
        }
    }

    /// The value that the bit pattern stands for.
    pub fn from_pattern(pattern: u8) -> (v: Self)
        requires
            pattern < Self::count(),
        ensures
            v == Self::of_pattern(pattern),
            v.pattern() == pattern,
    {
        if pattern == 0 {
            OperationMode::PureStack
        } else {
            OperationMode::StackAndImmediate
        }
    }
}

/// Signedness of an integer operation.
#[derive(Clone, Copy, Debug, PartialEq, Eq, Structural)]
pub enum SignFlag {
    Unsigned,
    Signed,
}

impl SignFlag {
    /// How many bit patterns name a flag.
    pub open spec fn count() -> u8 {
        2
    }

    /// The bit pattern of the flag.
    pub open spec fn pattern(self) -> u8 {
        match self {
            SignFlag::Unsigned => 0,
            SignFlag::Signed => 1,
        }
    }

    /// The flag whose bit pattern is `pattern`.
    pub open spec fn of_pattern(pattern: u8) -> Self {
        if pattern == 0 {
            SignFlag::Unsigned
        } else {
            SignFlag::Signed
        }
    }

    /// The bit pattern that stands for the value.
    pub fn get_bit_pattern(&self) -> (p: u8)
        ensures
            p == self.pattern(),
            p < Self::count(),
    {
        match self {
            SignFlag::Unsigned => 0,
            SignFlag::Signed => 1,
        }
    }

    /// The value that the bit pattern stands for.
    pub fn from_pattern(pattern: u8) -> (v: Self)
        requires
            pattern < Self::count(),
        ensures
            v == Self::of_pattern(pattern),
            v.pattern() == pattern,
    {
        if pattern == 0 {
            SignFlag::Unsigned
        } else {
            SignFlag::Signed
        }
    }
}

/// The bitwise operations.
#[derive(Clone, Copy, Debug, PartialEq, Eq, Structural)]
pub enum BitwiseOperation {
    And,
    Or,
    Xor,
}

impl BitwiseOperation {
    /// How many bit patterns name a operation.
    pub open spec fn count() -> u8 {
        3
    }

    /// The bit pattern of the operation.
    pub open spec fn pattern(self) -> u8 {
        match self {
            BitwiseOperation::And => 0,
            BitwiseOperation::Or => 1,
            BitwiseOperation::Xor => 2,
        }
    }

    /// The operation whose bit pattern is `pattern`.
    pub open spec fn of_pattern(pattern: u8) -> Self {
        if pattern == 0 {
            BitwiseOperation::And
        } else if pattern == 1 {
            BitwiseOperation::Or
        } else {
            BitwiseOperation::Xor
        }
    }

    /// The bit pattern that stands for the value.
    pub fn get_bit_pattern(&self) -> (p: u8)
        ensures
            p == self.pattern(),
            p < Self::count(),
    {
        match self {
            BitwiseOperation::And => 0,
            BitwiseOperation::Or => 1,
            BitwiseOperation::Xor => 2,
        }
    }

    /// The value that the bit pattern stands for.
    pub fn from_pattern(pattern: u8) -> (v: Self)
        requires
            pattern < Self::count(),
        ensures
            v == Self::of_pattern(pattern),
            v.pattern() == pattern,
    {
        if pattern == 0 {
            BitwiseOperation::And
        } else if pattern == 1 {
            BitwiseOperation::Or
        } else {
            BitwiseOperation::Xor
        }
    }
}

/// The arithmetic operations.
#[derive(Clone, Copy, Debug, PartialEq, Eq, Structural)]
pub enum ArithmeticOperation {
    Sum,
    Subtract,
    Multiply,
    Divide,
    Power,
}

impl ArithmeticOperation {
    /// How many bit patterns name a operation.
    pub open spec fn count() -> u8 {
        5
    }

    /// The bit pattern of the operation.
    pub open spec fn pattern(self) -> u8 {
        match self {
            ArithmeticOperation::Sum => 0,
            ArithmeticOperation::Subtract => 1,
            ArithmeticOperation::Multiply => 2,
            ArithmeticOperation::Divide => 3,
            ArithmeticOperation::Power => 4,
        }
    }

    /// The operation whose bit pattern is `pattern`.
    pub open spec fn of_pattern(pattern: u8) -> Self {
        if pattern == 0 {
            ArithmeticOperation::Sum
        } else if pattern == 1 {
            ArithmeticOperation::Subtract
        } else if pattern == 2 {
            ArithmeticOperation::Multiply
        } else if pattern == 3 {
            ArithmeticOperation::Divide
        } else {
            ArithmeticOperation::Power
        }
    }

    /// The bit pattern that stands for the value.
    pub fn get_bit_pattern(&self) -> (p: u8)
        ensures
            p == self.pattern(),
            p < Self::count(),
    {
        match self {
            ArithmeticOperation::Sum => 0,
            ArithmeticOperation::Subtract => 1,
            ArithmeticOperation::Multiply => 2,
            ArithmeticOperation::Divide => 3,
            ArithmeticOperation::Power => 4,
        }
    }

    /// The value that the bit pattern stands for.
    pub fn from_pattern(pattern: u8) -> (v: Self)
        requires
            pattern < Self::count(),
        ensures
            v == Self::of_pattern(pattern),
            v.pattern() == pattern,
    {
        if pattern == 0 {
            ArithmeticOperation::Sum
        } else if pattern == 1 {
            ArithmeticOperation::Subtract
        } else if pattern == 2 {
            ArithmeticOperation::Multiply
        } else if pattern == 3 {
            ArithmeticOperation::Divide
        } else {
            ArithmeticOperation::Power
        }
    }
}

/// The comparisons.
#[derive(Clone, Copy, Debug, PartialEq, Eq, Structural)]
pub enum CompareOperation {
    Equals,
    NotEquals,
    LessThan,
    LessThanOrEquals,
    GreaterThan,
    GreaterThanOrEquals,
}

impl CompareOperation {
    /// How many bit patterns name a comparison.
    pub open spec fn count() -> u8 {
        6
    }

    /// The bit pattern of the comparison.
    pub open spec fn pattern(self) -> u8 {
        match self {
            CompareOperation::Equals => 0,
            CompareOperation::NotEquals => 1,
            CompareOperation::LessThan => 2,
            CompareOperation::LessThanOrEquals => 3,
            CompareOperation::GreaterThan => 4,
            CompareOperation::GreaterThanOrEquals => 5,
        }
    }

    /// The comparison whose bit pattern is `pattern`.
    pub open spec fn of_pattern(pattern: u8) -> Self {
        if pattern == 0 {
            CompareOperation::Equals
        } else if pattern == 1 {
            CompareOperation::NotEquals
        } else if pattern == 2 {
            CompareOperation::LessThan
        } else if pattern == 3 {
            CompareOperation::LessThanOrEquals
        } else if pattern == 4 {
            CompareOperation::GreaterThan
        } else {
            CompareOperation::GreaterThanOrEquals
        }
    }

    /// The bit pattern that stands for the value.
    pub fn get_bit_pattern(&self) -> (p: u8)
        ensures
            p == self.pattern(),
            p < Self::count(),
    {
        match self {
            CompareOperation::Equals => 0,
            CompareOperation::NotEquals => 1,
            CompareOperation::LessThan => 2,
            CompareOperation::LessThanOrEquals => 3,
            CompareOperation::GreaterThan => 4,
            CompareOperation::GreaterThanOrEquals => 5,
        }
    }

    /// The value that the bit pattern stands for.
    pub fn from_pattern(pattern: u8) -> (v: Self)
        requires
            pattern < Self::count(),
        ensures
            v == Self::of_pattern(pattern),
            v.pattern() == pattern,
    {
        if pattern == 0 {
            CompareOperation::Equals
        } else if pattern == 1 {
            CompareOperation::NotEquals
        } else if pattern == 2 {
            CompareOperation::LessThan
        } else if pattern == 3 {
            CompareOperation::LessThanOrEquals
        } else if pattern == 4 {
            CompareOperation::GreaterThan
        } else {
            CompareOperation::GreaterThanOrEquals
        }
    }
}

/// The registers that can be pushed and popped.
#[derive(Clone, Copy, Debug, PartialEq, Eq, Structural)]
pub enum ControlRegister {
    BasePointer,
    StackPointer,
    InstructionPointer,
}

impl ControlRegister {
    /// How many bit patterns name a register.
    pub open spec fn count() -> u8 {
        3
    }

    /// The bit pattern of the register.
    pub open spec fn pattern(self) -> u8 {
        match self {
            ControlRegister::BasePointer => 0,
            ControlRegister::StackPointer => 1,
            ControlRegister::InstructionPointer => 2,
        }
    }

    /// The register whose bit pattern is `pattern`.
    pub open spec fn of_pattern(pattern: u8) -> Self {
        if pattern == 0 {
            ControlRegister::BasePointer
        } else if pattern == 1 {
            ControlRegister::StackPointer
        } else {
            ControlRegister::InstructionPointer
        }
    }

    /// The bit pattern that stands for the value.
    pub fn get_bit_pattern(&self) -> (p: u8)
        ensures
            p == self.pattern(),
            p < Self::count(),
    {
        match self {
            ControlRegister::BasePointer => 0,
            ControlRegister::StackPointer => 1,
            ControlRegister::InstructionPointer => 2,
        }
    }

    /// The value that the bit pattern stands for.
    pub fn from_pattern(pattern: u8) -> (v: Self)
        requires
            pattern < Self::count(),
        ensures
            v == Self::of_pattern(pattern),
            v.pattern() == pattern,
    {
        if pattern == 0 {
            ControlRegister::BasePointer
        } else if pattern == 1 {
            ControlRegister::StackPointer
        } else {
            ControlRegister::InstructionPointer
        }
    }
}

/// Where a call or jump finds its target.
#[derive(Clone, Copy, Debug, PartialEq, Eq, Structural)]
pub enum AddressJumpAddressSource {
    FromOperand,
    PopFromStack,
}

impl AddressJumpAddressSource {
    /// How many bit patterns name a source.
    pub open spec fn count() -> u8 {
        2
    }

    /// The bit pattern of the source.
    pub open spec fn pattern(self) -> u8 {
        match self {
            AddressJumpAddressSource::FromOperand => 0,
            AddressJumpAddressSource::PopFromStack => 1,
        }
    }

    /// The source whose bit pattern is `pattern`.
    pub open spec fn of_pattern(pattern: u8) -> Self {
        if pattern == 0 {
            AddressJumpAddressSource::FromOperand
        } else {
            AddressJumpAddressSource::PopFromStack
        }
    }

    /// The bit pattern that stands for the value.
    pub fn get_bit_pattern(&self) -> (p: u8)
        ensures
            p == self.pattern(),
            p < Self::count(),
    {
        match self {
            AddressJumpAddressSource::FromOperand => 0,
            AddressJumpAddressSource::PopFromStack => 1,
        }
    }

    /// The value that the bit pattern stands for.
    pub fn from_pattern(pattern: u8) -> (v: Self)
        requires
            pattern < Self::count(),
        ensures
            v == Self::of_pattern(pattern),
            v.pattern() == pattern,
    {
        if pattern == 0 {
            AddressJumpAddressSource::FromOperand
        } else {
            AddressJumpAddressSource::PopFromStack
        }
    }
}


/// A decoded instruction of the stack machine.
#[allow(inconsistent_fields)]
#[derive(Clone, Copy, Debug, PartialEq, Eq)]
pub enum Instruction {
    Noop,
    StackOffset { bytes: u32 },
    PushImmediate { bytes: NumberOfBytes, lshift: LeftShift, immediate: [u8; 2] },
    LoadAddress { bytes: NumberOfBytes, mode: LoadStoreAddressingMode, operand: u32 },
    StoreAddress { bytes: NumberOfBytes, mode: LoadStoreAddressingMode, operand: u32 },
    BitShift {
        bytes: NumberOfBytes,
        direction: ShiftDirection,
        mode: OperationMode,
        sign: SignFlag,
        operand: u8,
    },
    Bitwise {
        bytes: NumberOfBytes,
        operation: BitwiseOperation,
        sign: SignFlag,
        mode: OperationMode,
        operand: [u8; 2],
    },
    IntegerArithmetic {
        bytes: NumberOfBytes,
        operation: ArithmeticOperation,
        sign: SignFlag,
        mode: OperationMode,
        operand: [u8; 2],
    },
    IntegerCompare {
        bytes: NumberOfBytes,
        operation: CompareOperation,
        sign: SignFlag,
        mode: OperationMode,
        operand: [u8; 2],
    },
    FloatArithmetic { bytes: NumberOfBytes, operation: ArithmeticOperation },
    FloatCompare { bytes: NumberOfBytes, operation: CompareOperation },
    PushFromRegister { control_register: ControlRegister },
    PopIntoRegister { control_register: ControlRegister },
    Pop { bytes: NumberOfBytes },
    Call { source: AddressJumpAddressSource, offset: u32 },
    JumpIfZero { source: AddressJumpAddressSource, offset: u32 },
    JumpIfNotZero { source: AddressJumpAddressSource, offset: u32 },
    JumpUnconditional { source: AddressJumpAddressSource, offset: u32 },
    Return,
    Exit,
}

/// One value of an enumerated part, with the bits that stand for it.
#[derive(Clone, Copy, Debug, PartialEq, Eq, Structural)]
pub struct BitPattern {
    pub value: u32,
    pub pattern: u32,
}

/// What a part of a layout holds.
#[derive(Clone, Debug, PartialEq, Eq)]
pub enum PartType {
    /// One of a fixed set of values, each written as its own bit pattern.
    BitPattern(Vec<BitPattern>),
    /// A raw unsigned integer.
    Immediate,
}

/// A named run of bits inside an instruction word.
#[derive(Clone, Debug, PartialEq, Eq)]
pub struct LayoutPart {
    pub name: String,
    pub length: u8,
    pub layout_type: PartType,
}

/// The layout of one instruction: its pseudo-op in the five most significant
/// bits, then its parts from left to right.
#[derive(Clone, Debug, PartialEq, Eq)]
pub struct BitLayout {
    pub instruction_pseudoop: u8,
    pub layout: Vec<LayoutPart>,
}

/// Mathematical model of a `PartType`.
pub enum PartTypeView {
    BitPattern(Seq<BitPattern>),
    Immediate,
}

/// Mathematical model of a `LayoutPart`.
pub struct LayoutPartView {
    pub name: Seq<char>,
    pub length: u8,
    pub layout_type: PartTypeView,
}

/// Mathematical model of a `BitLayout`.
pub struct BitLayoutView {
    pub pseudoop: u8,
    pub parts: Seq<LayoutPartView>,
}

impl View for PartType {
    type V = PartTypeView;

    open spec fn view(&self) -> PartTypeView {
        match self {
            PartType::BitPattern(patterns) => PartTypeView::BitPattern(patterns@),
            PartType::Immediate => PartTypeView::Immediate,
        }
    }
}

impl View for LayoutPart {
    type V = LayoutPartView;

    open spec fn view(&self) -> LayoutPartView {
        LayoutPartView { name: self.name@, length: self.length, layout_type: self.layout_type@ }
    }
}

impl View for BitLayout {
    type V = BitLayoutView;

    open spec fn view(&self) -> BitLayoutView {
        BitLayoutView {
            pseudoop: self.instruction_pseudoop,
            parts: Seq::new(self.layout@.len(), |i: int| self.layout@[i]@),
        }
    }
}

/// The word with its `length` least significant bits set.
pub open spec fn low_mask(length: u8) -> u32 {
    if length >= 32 {
        0xffff_ffffu32
    } else {
        ((1u32 << (length as u32)) - 1) as u32
    }
}

/// `value`, cut to `length` bits and moved to the slot that begins `start`
/// bits below the top of the word.
pub open spec fn place(value: u32, start: int, length: u8) -> u32 {
    (value & low_mask(length)) << ((32 - start - length) as u32)
}

/// The `length` bits of `word` that begin `start` bits below its top.
pub open spec fn extract(word: u32, start: int, length: u8) -> u32 {
    (word >> ((32 - start - length) as u32)) & low_mask(length)
}

/// `i` is the first entry of `patterns` that stands for `value`.
pub open spec fn first_with_value(patterns: Seq<BitPattern>, value: u32, i: int) -> bool {
    &&& 0 <= i < patterns.len()
    &&& patterns[i].value == value
    &&& forall|j: int| 0 <= j < i ==> (#[trigger] patterns[j]).value != value
}

/// `i` is the first entry of `patterns` written as `pattern`.
pub open spec fn first_with_pattern(patterns: Seq<BitPattern>, pattern: u32, i: int) -> bool {
    &&& 0 <= i < patterns.len()
    &&& patterns[i].pattern == pattern
    &&& forall|j: int| 0 <= j < i ==> (#[trigger] patterns[j]).pattern != pattern
}

/// Some entry of `patterns` stands for `value`.
pub open spec fn has_value(patterns: Seq<BitPattern>, value: u32) -> bool {
    exists|i: int| 0 <= i < patterns.len() && (#[trigger] patterns[i]).value == value
}

/// Some entry of `patterns` is written as `pattern`.
pub open spec fn has_pattern(patterns: Seq<BitPattern>, pattern: u32) -> bool {
    exists|i: int| 0 <= i < patterns.len() && (#[trigger] patterns[i]).pattern == pattern
}

/// The bits that stand for `value`: those of the first entry that holds it.
pub open spec fn pattern_of(patterns: Seq<BitPattern>, value: u32) -> u32 {
    patterns[choose|i: int| first_with_value(patterns, value, i)].pattern
}

/// The value written as `pattern`: that of the first entry that holds it.
pub open spec fn value_of(patterns: Seq<BitPattern>, pattern: u32) -> u32 {
    patterns[choose|i: int| first_with_pattern(patterns, pattern, i)].value
}

/// The first entry for a value decides `pattern_of`.
pub proof fn lemma_pattern_of(patterns: Seq<BitPattern>, value: u32, i: int)
    requires
        first_with_value(patterns, value, i),
    ensures
        pattern_of(patterns, value) == patterns[i].pattern,
        has_value(patterns, value),
{
    let k = choose|k: int| first_with_value(patterns, value, k);
    assert(first_with_value(patterns, value, k));
    assert(k == i) by {
        if k < i {
            assert(patterns[k].value != value);
        } else if i < k {
            assert(patterns[i].value != value);
        }
    }
}

/// The first entry for a pattern decides `value_of`.
pub proof fn lemma_value_of(patterns: Seq<BitPattern>, pattern: u32, i: int)
    requires
        first_with_pattern(patterns, pattern, i),
    ensures
        value_of(patterns, pattern) == patterns[i].value,
        has_pattern(patterns, pattern),
{
    let k = choose|k: int| first_with_pattern(patterns, pattern, k);
    assert(first_with_pattern(patterns, pattern, k));
    assert(k == i) by {
        if k < i {
            assert(patterns[k].pattern != pattern);
        } else if i < k {
            assert(patterns[i].pattern != pattern);
        }
    }
}

/// Finds the first entry that stands for `value`.
pub fn find_value(patterns: &Vec<BitPattern>, value: u32) -> (found: Option<usize>)
    ensures
        match found {
            Some(i) => first_with_value(patterns@, value, i as int),
            None => !has_value(patterns@, value),
        },
{
    let mut i: usize = 0;
    while i < patterns.len()
        invariant
            0 <= i <= patterns.len(),
            forall|j: int| 0 <= j < i ==> (#[trigger] patterns@[j]).value != value,
        decreases patterns.len() - i,
    {
        if patterns[i].value == value {
            return Some(i);
        }
        i += 1;
    }
    None
}

/// Finds the first entry written as `pattern`.
pub fn find_pattern(patterns: &Vec<BitPattern>, pattern: u32) -> (found: Option<usize>)
    ensures
        match found {
            Some(i) => first_with_pattern(patterns@, pattern, i as int),
            None => !has_pattern(patterns@, pattern),
        },
{
    let mut i: usize = 0;
    while i < patterns.len()
        invariant
            0 <= i <= patterns.len(),
            forall|j: int| 0 <= j < i ==> (#[trigger] patterns@[j]).pattern != pattern,
        decreases patterns.len() - i,
    {
        if patterns[i].pattern == pattern {
            return Some(i);
        }
        i += 1;
    }
    None
}


/// No two entries share a value, and no two share a bit pattern.
pub open spec fn distinct_patterns(patterns: Seq<BitPattern>) -> bool {
    forall|i: int, j: int|
        0 <= i < j < patterns.len() ==> (#[trigger] patterns[i]).value != (#[trigger] patterns[j]).value
            && patterns[i].pattern != patterns[j].pattern
}

impl LayoutPartView {
    /// The entries of an enumerated part; none for an immediate.
    pub open spec fn patterns(self) -> Seq<BitPattern> {
        match self.layout_type {
            PartTypeView::BitPattern(patterns) => patterns,
            PartTypeView::Immediate => Seq::empty(),
        }
    }

    /// The part can hold `value`: any integer for an immediate, a listed
    /// value for an enumerated part.
    pub open spec fn accepts(self, value: u32) -> bool {
        self.layout_type is BitPattern ==> has_value(self.patterns(), value)
    }

    /// The bits written for `value`.
    pub open spec fn bits_for(self, value: u32) -> u32 {
        match self.layout_type {
            PartTypeView::BitPattern(patterns) => pattern_of(patterns, value),
            PartTypeView::Immediate => value,
        }
    }

    /// The bits `raw` can be read back as a value.
    pub open spec fn reads(self, raw: u32) -> bool {
        self.layout_type is BitPattern ==> has_pattern(self.patterns(), raw)
    }

    /// The value that the bits `raw` stand for.
    pub open spec fn value_for(self, raw: u32) -> u32 {
        match self.layout_type {
            PartTypeView::BitPattern(patterns) => value_of(patterns, raw),
            PartTypeView::Immediate => raw,
        }
    }
}

impl BitLayoutView {
    /// Number of bits that precede part `i`: the pseudo-op and the parts
    /// before it.
    pub open spec fn start(self, i: int) -> int
        decreases i,
    {
        if i <= 0 {
            5
        } else {
            self.start(i - 1) + self.parts[i - 1].length
        }
    }

    /// Bits used by the pseudo-op and all parts.
    pub open spec fn total_bits(self) -> int {
        self.start(self.parts.len() as int)
    }

    /// The layout fits a word: a five-bit pseudo-op, at most 27 bits of
    /// parts, and enumerated parts whose entries are unambiguous both ways.
    pub open spec fn wf(self) -> bool {
        &&& self.pseudoop < 32
        &&& self.total_bits() <= 32
        &&& forall|i: int|
            0 <= i < self.parts.len() ==> distinct_patterns((#[trigger] self.parts[i]).patterns())
    }

    /// Part `i` is the first one called `name`.
    pub open spec fn first_named(self, name: Seq<char>, i: int) -> bool {
        &&& 0 <= i < self.parts.len()
        &&& self.parts[i].name == name
        &&& forall|j: int| 0 <= j < i ==> (#[trigger] self.parts[j]).name != name
    }

    /// Some part is called `name`.
    pub open spec fn has_part(self, name: Seq<char>) -> bool {
        exists|i: int| 0 <= i < self.parts.len() && (#[trigger] self.parts[i]).name == name
    }

    /// Index of the first part called `name`.
    pub open spec fn index_of(self, name: Seq<char>) -> int {
        choose|i: int| self.first_named(name, i)
    }

    /// The first part called `name`.
    pub open spec fn part(self, name: Seq<char>) -> LayoutPartView {
        self.parts[self.index_of(name)]
    }

    /// A write of `value` to `name` is defined.
    pub open spec fn accepts(self, name: Seq<char>, value: u32) -> bool {
        self.has_part(name) && self.part(name).accepts(value)
    }

    /// `current` with `value` written to the part `name`.
    pub open spec fn with_field(self, current: u32, name: Seq<char>, value: u32) -> u32 {
        let i = self.index_of(name);
        current | place(self.parts[i].bits_for(value), self.start(i), self.parts[i].length)
    }

    /// The bits of `word` that belong to the part `name`.
    pub open spec fn raw_field(self, name: Seq<char>, word: u32) -> u32 {
        let i = self.index_of(name);
        extract(word, self.start(i), self.parts[i].length)
    }

    /// The part `name` of `word` can be read back as a value.
    pub open spec fn reads(self, name: Seq<char>, word: u32) -> bool {
        self.has_part(name) && self.part(name).reads(self.raw_field(name, word))
    }

    /// The value held by the part `name` of `word`.
    pub open spec fn field_value(self, name: Seq<char>, word: u32) -> u32 {
        self.part(name).value_for(self.raw_field(name, word))
    }

    /// Later parts begin further down the word.
    pub proof fn lemma_start_monotonic(self, i: int, j: int)
        requires
            0 <= i <= j,
        ensures
            5 <= self.start(i) <= self.start(j),
        decreases j,
    {
        if i < j {
            self.lemma_start_monotonic(i, j - 1);
        } else if i > 0 {
            self.lemma_start_monotonic(i - 1, i - 1);
            self.lemma_start_monotonic(i - 1, j - 1);
        }
    }

    /// In a well-formed layout every part lies inside the word.
    pub proof fn lemma_part_fits(self, i: int)
        requires
            self.wf(),
            0 <= i < self.parts.len(),
        ensures
            5 <= self.start(i),
            self.start(i) + self.parts[i].length <= 32,
    {
        self.lemma_start_monotonic(i, i);
        self.lemma_start_monotonic(i + 1, self.parts.len() as int);
    }

    /// A name that some part has is the name of a first part, and
    /// `index_of` is that part.
    pub proof fn lemma_first_named(self, name: Seq<char>)
        requires
            self.has_part(name),
        ensures
            self.first_named(name, self.index_of(name)),
    {
        let k = choose|k: int| 0 <= k < self.parts.len() && (#[trigger] self.parts[k]).name == name;
        self.lemma_first_before(name, k);
    }

    /// Among the parts up to `k`, where `k` has the name, one is the first
    /// with it.
    proof fn lemma_first_before(self, name: Seq<char>, k: int)
        requires
            0 <= k < self.parts.len(),
            self.parts[k].name == name,
        ensures
            exists|i: int| self.first_named(name, i),
        decreases k,
    {
        if forall|j: int| 0 <= j < k ==> (#[trigger] self.parts[j]).name != name {
            assert(self.first_named(name, k));
        } else {
            let j = choose|j: int| 0 <= j < k && (#[trigger] self.parts[j]).name == name;
            self.lemma_first_before(name, j);
        }
    }

    /// The first part of a name decides `index_of`.
    pub proof fn lemma_index_of(self, name: Seq<char>, i: int)
        requires
            self.first_named(name, i),
        ensures
            self.index_of(name) == i,
            self.has_part(name),
    {
        let k = choose|k: int| self.first_named(name, k);
        assert(self.first_named(name, k));
        assert(k == i) by {
            if k < i {
                assert(self.parts[k].name != name);
            } else if i < k {
                assert(self.parts[i].name != name);
            }
        }
    }
}


/// Cuts `value` to its `length` least significant bits.
pub fn keep_low_bits(value: u32, length: u8) -> (kept: u32)
    ensures
        kept == value & low_mask(length),
{
    if length >= 32 {
        assert(value & 0xffff_ffffu32 == value) by (bit_vector);
        value
    } else {
        let shift: u32 = length as u32;
        assert((1u32 << shift) >= 1) by (bit_vector)
            requires
                shift < 32,
        ;
        value & ((1u32 << shift) - 1)
    }
}

/// Moves the `length` low bits of `bits` to the slot that begins `start`
/// bits below the top of the word.
pub fn place_bits(bits: u32, start: u32, length: u8) -> (placed: u32)
    requires
        5 <= start,
        start + length <= 32,
    ensures
        placed == place(bits, start as int, length),
{
    let shift: u32 = 32 - start - length as u32;
    keep_low_bits(bits, length) << shift
}

/// Reads the `length` bits of `word` that begin `start` bits below its top.
pub fn extract_bits(word: u32, start: u32, length: u8) -> (raw: u32)
    requires
        5 <= start,
        start + length <= 32,
    ensures
        raw == extract(word, start as int, length),
{
    let shift: u32 = 32 - start - length as u32;
    keep_low_bits(word >> shift, length)
}

impl BitLayout {
    /// A layout with the given pseudo-op and no parts yet.
    pub fn new(instruction_pseudoop: u8) -> (layout: BitLayout)
        ensures
            layout@.pseudoop == instruction_pseudoop,
            layout@.parts == Seq::<LayoutPartView>::empty(),
    {
        let layout = BitLayout { instruction_pseudoop, layout: Vec::new() };
        assert(layout@.parts =~= Seq::<LayoutPartView>::empty());
        layout
    }

    /// The layout with one more part at its end.
    pub fn with_part(self, name: &str, length: u8, layout_type: PartType) -> (layout: BitLayout)
        ensures
            layout@.pseudoop == self@.pseudoop,
            layout@.parts == self@.parts.push(
                LayoutPartView { name: name@, length, layout_type: layout_type@ },
            ),
    {
        let ghost before = self@;
        let mut layout = self;
        layout.layout.push(LayoutPart { name: name.to_owned(), length, layout_type });
        assert(layout@.parts =~= before.parts.push(
            LayoutPartView { name: name@, length, layout_type: layout_type@ },
        ));
        layout
    }

    /// Finds the first part called `name`: its index and the number of bits
    /// before it.
    pub fn locate(&self, name: &str) -> (found: Option<(usize, u32)>)
        requires
            self@.wf(),
        ensures
            match found {
                Some((i, start)) => self@.first_named(name@, i as int) && start == self@.start(
                    i as int,
                ),
                None => !self@.has_part(name@),
            },
    {
        let mut i: usize = 0;
        let mut start: u32 = 5;
        while i < self.layout.len()
            invariant
                0 <= i <= self.layout.len(),
                self@.wf(),
                start == self@.start(i as int),
                forall|j: int| 0 <= j < i ==> (#[trigger] self@.parts[j]).name != name@,
            decreases self.layout.len() - i,
        {
            if str_eq(self.layout[i].name.as_str(), name) {
                return Some((i, start));
            }
            proof {
                self@.lemma_part_fits(i as int);
            }
            start = start + self.layout[i].length as u32;
            i += 1;
        }
        None
    }

    /// Reads the part `name` out of `word`: its raw bits, and the value they
    /// stand for (for an immediate, the bits themselves).
    pub fn get_part(&self, name: &str, word: u32) -> (field: (u32, u32))
        requires
            self@.wf(),
            self@.reads(name@, word),
        ensures
            field.0 == self@.raw_field(name@, word),
            field.1 == self@.field_value(name@, word),
    {
        match self.locate(name) {
            Some((i, start)) => {
                proof {
                    self@.lemma_index_of(name@, i as int);
                    self@.lemma_part_fits(i as int);
                }
                let part = &self.layout[i];
                let raw = extract_bits(word, start, part.length);
                match &part.layout_type {
                    PartType::BitPattern(patterns) => {
                        match find_pattern(patterns, raw) {
                            Some(k) => {
                                proof {
                                    lemma_value_of(patterns@, raw, k as int);
                                }
                                (raw, patterns[k].value)
                            },
                            None => unreached(),
                        }
                    },
                    PartType::Immediate => (raw, raw),
                }
            },
            None => unreached(),
        }
    }
}


/// Checks that no two entries share a value or a bit pattern.
pub fn patterns_are_distinct(patterns: &Vec<BitPattern>) -> (ok: bool)
    ensures
        ok == distinct_patterns(patterns@),
{
    let mut j: usize = 0;
    while j < patterns.len()
        invariant
            0 <= j <= patterns.len(),
            forall|a: int, b: int|
                0 <= a < b < j ==> (#[trigger] patterns@[a]).value != (#[trigger] patterns@[b]).value
                    && patterns@[a].pattern != patterns@[b].pattern,
        decreases patterns.len() - j,
    {
        let mut i: usize = 0;
        while i < j
            invariant
                0 <= i <= j < patterns.len(),
                forall|a: int|
                    0 <= a < i ==> (#[trigger] patterns@[a]).value != patterns@[j as int].value
                        && patterns@[a].pattern != patterns@[j as int].pattern,
            decreases j - i,
        {
            if patterns[i].value == patterns[j].value || patterns[i].pattern == patterns[j].pattern {
                return false;
            }
            i += 1;
        }
        j += 1;
    }
    true
}

impl PartType {
    /// Checks that an enumerated part is unambiguous; an immediate always is.
    pub fn is_valid(&self) -> (ok: bool)
        ensures
            ok == match self@ {
                PartTypeView::BitPattern(patterns) => distinct_patterns(patterns),
                PartTypeView::Immediate => true,
            },
    {
        match self {
            PartType::BitPattern(patterns) => patterns_are_distinct(patterns),
            PartType::Immediate => true,
        }
    }
}

impl BitLayout {
    /// Checks the layout: a five-bit pseudo-op, parts of at most 27 bits in
    /// all, and unambiguous enumerated parts.
    pub fn is_valid(&self) -> (ok: bool)
        ensures
            ok == self@.wf(),
    {
        if self.instruction_pseudoop >= 32 {
            return false;
        }
        let mut total: u32 = 5;
        let mut i: usize = 0;
        while i < self.layout.len()
            invariant
                0 <= i <= self.layout.len(),
                total == self@.start(i as int),
                total <= 32,
                forall|k: int|
                    0 <= k < i ==> distinct_patterns((#[trigger] self@.parts[k]).patterns()),
            decreases self.layout.len() - i,
        {
            total = total + self.layout[i].length as u32;
            if total > 32 {
                proof {
                    self@.lemma_start_monotonic(i as int + 1, self.layout.len() as int);
                }
                return false;
            }
            if !self.layout[i].layout_type.is_valid() {
                assert(!distinct_patterns(self@.parts[i as int].patterns()));
                return false;
            }
            assert(distinct_patterns(self@.parts[i as int].patterns())) by {
                assert(distinct_patterns(Seq::<BitPattern>::empty()));
            }
            i += 1;
        }
        true
    }
}


/// A layout with the name it is looked up by.
#[derive(Clone, Debug, PartialEq, Eq)]
pub struct TableEntry {
    pub name: String,
    pub layout: BitLayout,
}

/// The instruction table: every layout under its name, and beside it the
/// reverse index from pseudo-op to the position of its layout.
#[derive(Clone, Debug, PartialEq, Eq)]
pub struct InstructionTable {
    pub table: Vec<TableEntry>,
    pub pseudoops: Vec<Option<usize>>,
}

/// Mathematical model of a `TableEntry`.
pub struct TableEntryView {
    pub name: Seq<char>,
    pub layout: BitLayoutView,
}

/// Mathematical model of an `InstructionTable`.
pub struct InstructionTableView {
    pub entries: Seq<TableEntryView>,
    pub pseudoops: Seq<Option<usize>>,
}

impl View for TableEntry {
    type V = TableEntryView;

    open spec fn view(&self) -> TableEntryView {
        TableEntryView { name: self.name@, layout: self.layout@ }
    }
}

impl View for InstructionTable {
    type V = InstructionTableView;

    open spec fn view(&self) -> InstructionTableView {
        InstructionTableView {
            entries: Seq::new(self.table@.len(), |i: int| self.table@[i]@),
            pseudoops: self.pseudoops@,
        }
    }
}

impl InstructionTableView {
    /// Entry `i` is called `name`.
    pub open spec fn named(self, name: Seq<char>, i: int) -> bool {
        0 <= i < self.entries.len() && self.entries[i].name == name
    }

    /// Some layout is called `name`.
    pub open spec fn has_layout(self, name: Seq<char>) -> bool {
        exists|i: int| #[trigger] self.named(name, i)
    }

    /// The layout called `name`.
    pub open spec fn layout(self, name: Seq<char>) -> BitLayoutView {
        self.entries[choose|i: int| #[trigger] self.named(name, i)].layout
    }

    /// Entry `i` has the pseudo-op `op`.
    pub open spec fn coded(self, op: u8, i: int) -> bool {
        0 <= i < self.entries.len() && self.entries[i].layout.pseudoop == op
    }

    /// Some layout has the pseudo-op `op`.
    pub open spec fn has_pseudoop(self, op: u8) -> bool {
        exists|i: int| #[trigger] self.coded(op, i)
    }

    /// The layout whose pseudo-op is `op`.
    pub open spec fn layout_of_pseudoop(self, op: u8) -> BitLayoutView {
        self.entries[choose|i: int| #[trigger] self.coded(op, i)].layout
    }

    /// The table is valid: every layout is well formed, no name and no
    /// pseudo-op occurs twice, and the reverse index lists exactly the
    /// pseudo-ops in use.
    #[verifier::opaque]
    pub open spec fn wf(self) -> bool {
        &&& forall|i: int| 0 <= i < self.entries.len() ==> (#[trigger] self.entries[i]).layout.wf()
        &&& forall|i: int, j: int|
            0 <= i < j < self.entries.len() ==> (#[trigger] self.entries[i]).name != (
            #[trigger] self.entries[j]).name
        &&& forall|i: int, j: int|
            0 <= i < j < self.entries.len() ==> (#[trigger] self.entries[i]).layout.pseudoop != (
            #[trigger] self.entries[j]).layout.pseudoop
        &&& self.pseudoops.len() == 32
        &&& forall|op: int|
            0 <= op < 32 ==> match #[trigger] self.pseudoops[op] {
                Some(i) => self.coded(op as u8, i as int),
                None => !self.has_pseudoop(op as u8),
            }
    }

    /// In a valid table an entry of a name is the layout of that name.
    pub proof fn lemma_layout(self, name: Seq<char>, i: int)
        requires
            self.wf(),
            self.named(name, i),
        ensures
            self.has_layout(name),
            self.layout(name) == self.entries[i].layout,
            self.layout(name).wf(),
    {
        reveal(InstructionTableView::wf);
        let k = choose|k: int| #[trigger] self.named(name, k);
        assert(self.named(name, k));
        if k < i {
            assert(self.entries[k].name != self.entries[i].name);
        } else if i < k {
            assert(self.entries[i].name != self.entries[k].name);
        }
    }

    /// In a valid table an entry of a pseudo-op is the layout of that pseudo-op.
    pub proof fn lemma_layout_of_pseudoop(self, op: u8, i: int)
        requires
            self.wf(),
            self.coded(op, i),
        ensures
            self.has_pseudoop(op),
            self.layout_of_pseudoop(op) == self.entries[i].layout,
            self.layout_of_pseudoop(op).wf(),
            self.layout_of_pseudoop(op).pseudoop == op,
    {
        reveal(InstructionTableView::wf);
        let k = choose|k: int| #[trigger] self.coded(op, k);
        assert(self.coded(op, k));
        if k < i {
            assert(self.entries[k].layout.pseudoop != self.entries[i].layout.pseudoop);
        } else if i < k {
            assert(self.entries[i].layout.pseudoop != self.entries[k].layout.pseudoop);
        }
    }
}

impl InstructionTable {
    /// The empty table.
    pub fn new() -> (table: InstructionTable)
        ensures
            table@.wf(),
            table@.entries == Seq::<TableEntryView>::empty(),
    {
        proof {
            reveal(InstructionTableView::wf);
        }
        let mut pseudoops: Vec<Option<usize>> = Vec::new();
        let mut op: usize = 0;
        while op < 32
            invariant
                0 <= op <= 32,
                pseudoops@.len() == op,
                forall|k: int| 0 <= k < op ==> pseudoops@[k] is None,
            decreases 32 - op,
        {
            pseudoops.push(None);
            op += 1;
        }
        let table = InstructionTable { table: Vec::new(), pseudoops };
        assert(table@.entries =~= Seq::<TableEntryView>::empty());
        assert forall|op: int| 0 <= op < 32 implies match #[trigger] table@.pseudoops[op] {
            Some(i) => table@.coded(op as u8, i as int),
            None => !table@.has_pseudoop(op as u8),
        } by {
            assert forall|i: int| !#[trigger] table@.coded(op as u8, i) by {}
        }
        table
    }

    /// Looks a layout up by its name.
    pub fn get(&self, name: &str) -> (found: Option<&BitLayout>)
        requires
            self@.wf(),
        ensures
            found is Some == self@.has_layout(name@),
            found matches Some(layout) ==> layout@ == self@.layout(name@) && layout@.wf(),
    {
        let mut i: usize = 0;
        while i < self.table.len()
            invariant
                0 <= i <= self.table.len(),
                self@.wf(),
                forall|j: int| 0 <= j < i ==> !#[trigger] self@.named(name@, j),
            decreases self.table.len() - i,
        {
            if str_eq(self.table[i].name.as_str(), name) {
                proof {
                    assert(self@.named(name@, i as int));
                    self@.lemma_layout(name@, i as int);
                }
                return Some(&self.table[i].layout);
            }
            i += 1;
        }
        None
    }

    /// Looks a layout up by its pseudo-op, through the reverse index.
    pub fn get_by_pseudoop(&self, op: u8) -> (found: Option<&BitLayout>)
        requires
            self@.wf(),
        ensures
            found is Some == self@.has_pseudoop(op),
            found matches Some(layout) ==> layout@ == self@.layout_of_pseudoop(op) && layout@.wf()
                && layout@.pseudoop == op,
    {
        proof {
            reveal(InstructionTableView::wf);
        }
        if op >= 32 {
            assert forall|i: int| !#[trigger] self@.coded(op, i) by {
                if 0 <= i < self@.entries.len() {
                    assert(self@.entries[i].layout.wf());
                }
            }
            return None;
        }
        assert(self.pseudoops@[op as int] == self@.pseudoops[op as int]);
        match self.pseudoops[op as usize] {
            Some(i) => {
                proof {
                    self@.lemma_layout_of_pseudoop(op, i as int);
                }
                Some(&self.table[i].layout)
            },
            None => None,
        }
    }

    /// Adds `layout` under `name` if the table stays valid: the layout must
    /// be well formed, and neither its name nor its pseudo-op may be in use.
    /// Otherwise the table is left as it was.
    pub fn add(&mut self, name: &str, layout: BitLayout) -> (added: bool)
        requires
            old(self)@.wf(),
        ensures
            final(self)@.wf(),
            added == (layout@.wf() && !old(self)@.has_layout(name@) && !old(self)@.has_pseudoop(
                layout@.pseudoop,
            )),
            added ==> final(self)@.entries == old(self)@.entries.push(
                TableEntryView { name: name@, layout: layout@ },
            ),
            !added ==> final(self)@ == old(self)@,
    {
        proof {
            reveal(InstructionTableView::wf);
        }
        if !layout.is_valid() {
            return false;
        }
        if self.get(name).is_some() {
            return false;
        }
        let op = layout.instruction_pseudoop;
        if self.get_by_pseudoop(op).is_some() {
            return false;
        }
        let ghost before = self@;
        let ghost entry = TableEntryView { name: name@, layout: layout@ };
        let position = self.table.len();
        self.table.push(TableEntry { name: name.to_owned(), layout });
        self.pseudoops[op as usize] = Some(position);
        proof {
            let after = self@;
            assert(after.entries =~= before.entries.push(entry));
            assert forall|i: int, j: int| 0 <= i < j < after.entries.len() implies (
            #[trigger] after.entries[i]).name != (#[trigger] after.entries[j]).name by {
                if j == position {
                    assert(!before.named(name@, i));
                }
            }
            assert forall|i: int, j: int| 0 <= i < j < after.entries.len() implies (
            #[trigger] after.entries[i]).layout.pseudoop != (
            #[trigger] after.entries[j]).layout.pseudoop by {
                if j == position {
                    assert(!before.coded(op, i));
                }
            }
            assert forall|o: int| 0 <= o < 32 implies match #[trigger] after.pseudoops[o] {
                Some(i) => after.coded(o as u8, i as int),
                None => !after.has_pseudoop(o as u8),
            } by {
                if o == op {
                    assert(after.coded(op, position as int));
                } else {
                    match before.pseudoops[o] {
                        Some(i) => {
                            assert(before.coded(o as u8, i as int));
                        },
                        None => {
                            assert forall|i: int| !#[trigger] after.coded(o as u8, i) by {
                                if after.coded(o as u8, i) {
                                    assert(before.coded(o as u8, i));
                                }
                            }
                        },
                    }
                }
            }
        }
        true
    }
}


/// An enumerated part of a layout.
pub open spec fn pattern_part(
    name: Seq<char>,
    length: u8,
    patterns: Seq<BitPattern>,
) -> LayoutPartView {
    LayoutPartView { name, length, layout_type: PartTypeView::BitPattern(patterns) }
}

/// An immediate part of a layout.
pub open spec fn immediate_part(name: Seq<char>, length: u8) -> LayoutPartView {
    LayoutPartView { name, length, layout_type: PartTypeView::Immediate }
}

/// The operand widths 1, 2, 4 and 8, written as 00, 01, 10 and 11.
pub open spec fn number_of_bytes_patterns() -> Seq<BitPattern> {
    seq![
        BitPattern { value: 1, pattern: 0 },
        BitPattern { value: 2, pattern: 1 },
        BitPattern { value: 4, pattern: 2 },
        BitPattern { value: 8, pattern: 3 },
    ]
}

/// The shift distances 0, 16, 32 and 48, written as 00, 01, 10 and 11.
pub open spec fn left_shift_patterns() -> Seq<BitPattern> {
    seq![
        BitPattern { value: 0, pattern: 0 },
        BitPattern { value: 16, pattern: 1 },
        BitPattern { value: 32, pattern: 2 },
        BitPattern { value: 48, pattern: 3 },
    ]
}

/// The values `0 .. count`, each written as itself.
pub open spec fn plain_patterns(count: nat) -> Seq<BitPattern> {
    Seq::new(count, |i: int| BitPattern { value: i as u32, pattern: i as u32 })
}

/// Name of the standard layout with pseudo-op `op`.
pub open spec fn standard_name(op: int) -> Seq<char> {
    if op == 0 {
        "noop"@
    } else if op == 1 {
        "push_imm"@
    } else if op == 2 {
        "loadaddr"@
    } else if op == 3 {
        "storeaddr"@
    } else if op == 4 {
        "shift"@
    } else if op == 5 {
        "bitwise"@
    } else if op == 6 {
        "integer_binary_op"@
    } else if op == 7 {
        "integer_compare"@
    } else if op == 8 {
        "float_binary_op"@
    } else if op == 9 {
        "float_compare_op"@
    } else if op == 10 {
        "push_reg"@
    } else if op == 11 {
        "pop_reg"@
    } else if op == 12 {
        "pop"@
    } else if op == 13 {
        "stackoffset"@
    } else if op == 14 {
        "call"@
    } else {
        "return"@
    }
}

/// Parts of the standard layout with pseudo-op `op`, from left to right.
pub open spec fn standard_parts(op: int) -> Seq<LayoutPartView> {
    if op == 1 {
        seq![
            pattern_part("num bytes"@, 2, number_of_bytes_patterns()),
            pattern_part("lshift"@, 2, left_shift_patterns()),
            immediate_part("immediate lsb"@, 16),
        ]
    } else if op == 2 {
        seq![
            pattern_part("num bytes"@, 2, number_of_bytes_patterns()),
            pattern_part("mode"@, 2, plain_patterns(4)),
            immediate_part("operand"@, 23),
        ]
    } else if op == 3 {
        seq![
            pattern_part("num bytes"@, 2, number_of_bytes_patterns()),
            pattern_part("mode"@, 2, plain_patterns(4)),
            immediate_part("operand"@, 23),
        ]
    } else if op == 4 {
        seq![
            pattern_part("num bytes"@, 2, number_of_bytes_patterns()),
            pattern_part("direction"@, 1, plain_patterns(2)),
            pattern_part("mode"@, 1, plain_patterns(2)),
            pattern_part("keep sign"@, 1, plain_patterns(2)),
            immediate_part("operand"@, 8),
        ]
    } else if op == 5 {
        seq![
            pattern_part("num bytes"@, 2, number_of_bytes_patterns()),
            pattern_part("operation"@, 2, plain_patterns(3)),
            pattern_part("mode"@, 1, plain_patterns(2)),
            pattern_part("sign"@, 1, plain_patterns(2)),
            immediate_part("operand"@, 16),
        ]
    } else if op == 6 {
        seq![
            pattern_part("num bytes"@, 2, number_of_bytes_patterns()),
            pattern_part("operation"@, 3, plain_patterns(5)),
            pattern_part("sign"@, 1, plain_patterns(2)),
            pattern_part("mode"@, 1, plain_patterns(2)),
            immediate_part("operand"@, 16),
        ]
    } else if op == 7 {
        seq![
            pattern_part("num bytes"@, 2, number_of_bytes_patterns()),
            pattern_part("operation"@, 3, plain_patterns(6)),
            pattern_part("sign"@, 1, plain_patterns(2)),
            pattern_part("mode"@, 1, plain_patterns(2)),
            immediate_part("operand"@, 16),
        ]
    } else if op == 8 {
        seq![
            pattern_part("num bytes"@, 2, number_of_bytes_patterns()),
            pattern_part("operation"@, 3, plain_patterns(5)),
        ]
    } else if op == 9 {
        seq![
            pattern_part("num bytes"@, 2, number_of_bytes_patterns()),
            pattern_part("operation"@, 3, plain_patterns(6)),
        ]
    } else if op == 10 {
        seq![
            pattern_part("register"@, 2, plain_patterns(3)),
        ]
    } else if op == 11 {
        seq![
            pattern_part("register"@, 2, plain_patterns(3)),
        ]
    } else if op == 12 {
        seq![
            pattern_part("num bytes"@, 2, number_of_bytes_patterns()),
        ]
    } else if op == 13 {
        seq![
            immediate_part("num bytes"@, 27),
        ]
    } else if op == 14 {
        seq![
            pattern_part("source"@, 1, plain_patterns(2)),
            immediate_part("offset"@, 26),
        ]
    } else {
        Seq::empty()
    }
}

/// The standard layout with pseudo-op `op`.
pub open spec fn standard_layout(op: int) -> BitLayoutView {
    BitLayoutView { pseudoop: op as u8, parts: standard_parts(op) }
}

/// The entries of the standard table, in the order of their pseudo-ops.
pub open spec fn standard_entries() -> Seq<TableEntryView> {
    Seq::new(
        16,
        |op: int| TableEntryView { name: standard_name(op), layout: standard_layout(op) },
    )
}

/// The standard layouts have sixteen different names.
pub proof fn lemma_standard_names_distinct()
    ensures
        forall|a: int, b: int|
            0 <= a < b < 16 ==> #[trigger] standard_name(a) != #[trigger] standard_name(b),
{
    reveal_strlit("noop");
    reveal_strlit("push_imm");
    reveal_strlit("loadaddr");
    reveal_strlit("storeaddr");
    reveal_strlit("shift");
    reveal_strlit("bitwise");
    reveal_strlit("integer_binary_op");
    reveal_strlit("integer_compare");
    reveal_strlit("float_binary_op");
    reveal_strlit("float_compare_op");
    reveal_strlit("push_reg");
    reveal_strlit("pop_reg");
    reveal_strlit("pop");
    reveal_strlit("stackoffset");
    reveal_strlit("call");
    reveal_strlit("return");
    assert("noop"@.len() == 4 && "noop"@[0] == 'n');
    assert("push_imm"@.len() == 8 && "push_imm"@[0] == 'p');
    assert("loadaddr"@.len() == 8 && "loadaddr"@[0] == 'l');
    assert("storeaddr"@.len() == 9 && "storeaddr"@[0] == 's');
    assert("shift"@.len() == 5 && "shift"@[0] == 's');
    assert("bitwise"@.len() == 7 && "bitwise"@[0] == 'b');
    assert("integer_binary_op"@.len() == 17 && "integer_binary_op"@[0] == 'i');
    assert("integer_compare"@.len() == 15 && "integer_compare"@[0] == 'i');
    assert("float_binary_op"@.len() == 15 && "float_binary_op"@[0] == 'f');
    assert("float_compare_op"@.len() == 16 && "float_compare_op"@[0] == 'f');
    assert("push_reg"@.len() == 8 && "push_reg"@[0] == 'p');
    assert("pop_reg"@.len() == 7 && "pop_reg"@[0] == 'p');
    assert("pop"@.len() == 3 && "pop"@[0] == 'p');
    assert("stackoffset"@.len() == 11 && "stackoffset"@[0] == 's');
    assert("call"@.len() == 4 && "call"@[0] == 'c');
    assert("return"@.len() == 6 && "return"@[0] == 'r');
    assert("push_imm"@[5] == 'i' && "push_reg"@[5] == 'r');
}

/// Every standard layout is well formed.
pub proof fn lemma_standard_layout_wf(op: int)
    requires
        0 <= op < 16,
    ensures
        standard_layout(op).wf(),
{
    let layout = standard_layout(op);
    reveal_with_fuel(BitLayoutView::start, 6);
    assert(layout.total_bits() <= 32);
    assert forall|i: int| 0 <= i < layout.parts.len() implies distinct_patterns(
        (#[trigger] layout.parts[i]).patterns(),
    ) by {
        assert(distinct_patterns(number_of_bytes_patterns()));
        assert(distinct_patterns(left_shift_patterns()));
        assert(forall|n: nat| n <= 6 ==> distinct_patterns(#[trigger] plain_patterns(n)));
        assert(distinct_patterns(Seq::<BitPattern>::empty()));
    }
}

fn make_number_of_bytes_patterns() -> (patterns: Vec<BitPattern>)
    ensures
        patterns@ == number_of_bytes_patterns(),
{
    let mut patterns: Vec<BitPattern> = Vec::new();
    patterns.push(BitPattern { value: 1, pattern: 0 });
    patterns.push(BitPattern { value: 2, pattern: 1 });
    patterns.push(BitPattern { value: 4, pattern: 2 });
    patterns.push(BitPattern { value: 8, pattern: 3 });
    assert(patterns@ =~= number_of_bytes_patterns());
    patterns
}

fn make_left_shift_patterns() -> (patterns: Vec<BitPattern>)
    ensures
        patterns@ == left_shift_patterns(),
{
    let mut patterns: Vec<BitPattern> = Vec::new();
    patterns.push(BitPattern { value: 0, pattern: 0 });
    patterns.push(BitPattern { value: 16, pattern: 1 });
    patterns.push(BitPattern { value: 32, pattern: 2 });
    patterns.push(BitPattern { value: 48, pattern: 3 });
    assert(patterns@ =~= left_shift_patterns());
    patterns
}

fn make_plain_patterns(count: u32) -> (patterns: Vec<BitPattern>)
    ensures
        patterns@ == plain_patterns(count as nat),
{
    let mut patterns: Vec<BitPattern> = Vec::new();
    let mut i: u32 = 0;
    while i < count
        invariant
            0 <= i <= count,
            patterns@ == plain_patterns(i as nat),
        decreases count - i,
    {
        patterns.push(BitPattern { value: i, pattern: i });
        i += 1;
        assert(patterns@ =~= plain_patterns(i as nat));
    }
    patterns
}

fn make_standard_name(op: u8) -> (name: &'static str)
    requires
        op < 16,
    ensures
        name@ == standard_name(op as int),
{
    if op == 0 {
        "noop"
    } else if op == 1 {
        "push_imm"
    } else if op == 2 {
        "loadaddr"
    } else if op == 3 {
        "storeaddr"
    } else if op == 4 {
        "shift"
    } else if op == 5 {
        "bitwise"
    } else if op == 6 {
        "integer_binary_op"
    } else if op == 7 {
        "integer_compare"
    } else if op == 8 {
        "float_binary_op"
    } else if op == 9 {
        "float_compare_op"
    } else if op == 10 {
        "push_reg"
    } else if op == 11 {
        "pop_reg"
    } else if op == 12 {
        "pop"
    } else if op == 13 {
        "stackoffset"
    } else if op == 14 {
        "call"
    } else {
        "return"
    }
}

fn make_standard_layout(op: u8) -> (layout: BitLayout)
    requires
        op < 16,
    ensures
        layout@ == standard_layout(op as int),
{
    let layout = if op == 1 {
        BitLayout::new(op)
            .with_part("num bytes", 2, PartType::BitPattern(make_number_of_bytes_patterns()))
            .with_part("lshift", 2, PartType::BitPattern(make_left_shift_patterns()))
            .with_part("immediate lsb", 16, PartType::Immediate)
    } else if op == 2 {
        BitLayout::new(op)
            .with_part("num bytes", 2, PartType::BitPattern(make_number_of_bytes_patterns()))
            .with_part("mode", 2, PartType::BitPattern(make_plain_patterns(4)))
            .with_part("operand", 23, PartType::Immediate)
    } else if op == 3 {
        BitLayout::new(op)
            .with_part("num bytes", 2, PartType::BitPattern(make_number_of_bytes_patterns()))
            .with_part("mode", 2, PartType::BitPattern(make_plain_patterns(4)))
            .with_part("operand", 23, PartType::Immediate)
    } else if op == 4 {
        BitLayout::new(op)
            .with_part("num bytes", 2, PartType::BitPattern(make_number_of_bytes_patterns()))
            .with_part("direction", 1, PartType::BitPattern(make_plain_patterns(2)))
            .with_part("mode", 1, PartType::BitPattern(make_plain_patterns(2)))
            .with_part("keep sign", 1, PartType::BitPattern(make_plain_patterns(2)))
            .with_part("operand", 8, PartType::Immediate)
    } else if op == 5 {
        BitLayout::new(op)
            .with_part("num bytes", 2, PartType::BitPattern(make_number_of_bytes_patterns()))
            .with_part("operation", 2, PartType::BitPattern(make_plain_patterns(3)))
            .with_part("mode", 1, PartType::BitPattern(make_plain_patterns(2)))
            .with_part("sign", 1, PartType::BitPattern(make_plain_patterns(2)))
            .with_part("operand", 16, PartType::Immediate)
    } else if op == 6 {
        BitLayout::new(op)
            .with_part("num bytes", 2, PartType::BitPattern(make_number_of_bytes_patterns()))
            .with_part("operation", 3, PartType::BitPattern(make_plain_patterns(5)))
            .with_part("sign", 1, PartType::BitPattern(make_plain_patterns(2)))
            .with_part("mode", 1, PartType::BitPattern(make_plain_patterns(2)))
            .with_part("operand", 16, PartType::Immediate)
    } else if op == 7 {
        BitLayout::new(op)
            .with_part("num bytes", 2, PartType::BitPattern(make_number_of_bytes_patterns()))
            .with_part("operation", 3, PartType::BitPattern(make_plain_patterns(6)))
            .with_part("sign", 1, PartType::BitPattern(make_plain_patterns(2)))
            .with_part("mode", 1, PartType::BitPattern(make_plain_patterns(2)))
            .with_part("operand", 16, PartType::Immediate)
    } else if op == 8 {
        BitLayout::new(op)
            .with_part("num bytes", 2, PartType::BitPattern(make_number_of_bytes_patterns()))
            .with_part("operation", 3, PartType::BitPattern(make_plain_patterns(5)))
    } else if op == 9 {
        BitLayout::new(op)
            .with_part("num bytes", 2, PartType::BitPattern(make_number_of_bytes_patterns()))
            .with_part("operation", 3, PartType::BitPattern(make_plain_patterns(6)))
    } else if op == 10 {
        BitLayout::new(op)
            .with_part("register", 2, PartType::BitPattern(make_plain_patterns(3)))
    } else if op == 11 {
        BitLayout::new(op)
            .with_part("register", 2, PartType::BitPattern(make_plain_patterns(3)))
    } else if op == 12 {
        BitLayout::new(op)
            .with_part("num bytes", 2, PartType::BitPattern(make_number_of_bytes_patterns()))
    } else if op == 13 {
        BitLayout::new(op)
            .with_part("num bytes", 27, PartType::Immediate)
    } else if op == 14 {
        BitLayout::new(op)
            .with_part("source", 1, PartType::BitPattern(make_plain_patterns(2)))
            .with_part("offset", 26, PartType::Immediate)
    } else {
        BitLayout::new(op)
    };
    assert(layout@.parts =~= standard_parts(op as int));
    layout
}

/// Builds the standard instruction table: the sixteen layouts with the
/// pseudo-ops `0 .. 16`, each under its name.
pub fn get_all_instruction_layouts() -> (table: InstructionTable)
    ensures
        table@.wf(),
        table@.entries == standard_entries(),
{
    let mut table = InstructionTable::new();
    let mut op: u8 = 0;
    while op < 16
        invariant
            0 <= op <= 16,
            table@.wf(),
            table@.entries.len() == op,
            forall|i: int| 0 <= i < op ==> #[trigger] table@.entries[i] == standard_entries()[i],
        decreases 16 - op,
    {
        let ghost before = table@;
        let name = make_standard_name(op);
        let layout = make_standard_layout(op);
        proof {
            lemma_standard_layout_wf(op as int);
            lemma_standard_names_distinct();
            assert forall|i: int| !#[trigger] before.named(name@, i) by {
                if 0 <= i < before.entries.len() {
                    assert(before.entries[i] == standard_entries()[i]);
                }
            }
            assert forall|i: int| !#[trigger] before.coded(op, i) by {
                if 0 <= i < before.entries.len() {
                    assert(before.entries[i] == standard_entries()[i]);
                }
            }
        }
        let added = table.add(name, layout);
        assert(added);
        op += 1;
    }
    assert(table@.entries =~= standard_entries());
    table
}

/// The table holds the standard layouts.
pub open spec fn is_standard(table: InstructionTableView) -> bool {
    table.wf() && table.entries == standard_entries()
}

/// In the standard table the layout of a pseudo-op is found both by its
/// name and by the pseudo-op.
pub proof fn lemma_standard_lookup(table: InstructionTableView, op: int)
    requires
        is_standard(table),
        0 <= op < 16,
    ensures
        table.has_layout(standard_name(op)),
        table.layout(standard_name(op)) == standard_layout(op),
        table.has_pseudoop(op as u8),
        table.layout_of_pseudoop(op as u8) == standard_layout(op),
        standard_layout(op).wf(),
{
    assert(table.named(standard_name(op), op));
    table.lemma_layout(standard_name(op), op);
    assert(table.coded(op as u8, op));
    table.lemma_layout_of_pseudoop(op as u8, op);
}

/// The standard table has a layout for the pseudo-ops 0 to 15 and for no
/// other.
pub proof fn lemma_standard_pseudoops(table: InstructionTableView, op: u8)
    requires
        is_standard(table),
    ensures
        table.has_pseudoop(op) <==> op < 16,
{
    if op < 16 {
        lemma_standard_lookup(table, op as int);
    } else {
        assert forall|i: int| !#[trigger] table.coded(op, i) by {}
    }
}

impl LayoutPartView {
    /// An enumerated part whose values are written as themselves takes and
    /// gives back every value below their count.
    pub proof fn lemma_plain_part(self, count: nat, value: u32)
        requires
            self.layout_type == PartTypeView::BitPattern(plain_patterns(count)),
            count <= 256,
        ensures
            self.accepts(value) <==> value < count,
            self.reads(value) <==> value < count,
            value < count ==> self.bits_for(value) == value && self.value_for(value) == value,
    {
        let patterns = plain_patterns(count);
        if value < count {
            assert(first_with_value(patterns, value, value as int));
            lemma_pattern_of(patterns, value, value as int);
            assert(first_with_pattern(patterns, value, value as int));
            lemma_value_of(patterns, value, value as int);
        }
    }

    /// The part of the operand widths takes every width, writes it as its
    /// pattern and reads every two-bit pattern as a width.
    pub proof fn lemma_number_of_bytes_part(self, width: NumberOfBytes)
        requires
            self.layout_type == PartTypeView::BitPattern(number_of_bytes_patterns()),
        ensures
            self.accepts(width.bytes() as u32),
            self.bits_for(width.bytes() as u32) == width.pattern(),
            self.reads(width.pattern() as u32),
            self.value_for(width.pattern() as u32) == width.bytes(),
            forall|raw: u32| #[trigger] self.reads(raw) ==> raw < 4,
    {
        let patterns = number_of_bytes_patterns();
        let i = width.pattern() as int;
        assert(first_with_value(patterns, width.bytes() as u32, i));
        lemma_pattern_of(patterns, width.bytes() as u32, i);
        assert(first_with_pattern(patterns, width.pattern() as u32, i));
        lemma_value_of(patterns, width.pattern() as u32, i);
    }

    /// The part of the shift distances takes every distance, writes it as
    /// its pattern and reads every two-bit pattern as a distance.
    pub proof fn lemma_left_shift_part(self, shift: LeftShift)
        requires
            self.layout_type == PartTypeView::BitPattern(left_shift_patterns()),
        ensures
            self.accepts(shift.shift_size() as u32),
            self.bits_for(shift.shift_size() as u32) == shift.pattern(),
            self.reads(shift.pattern() as u32),
            self.value_for(shift.pattern() as u32) == shift.shift_size(),
            forall|raw: u32| #[trigger] self.reads(raw) ==> raw < 4,
    {
        let patterns = left_shift_patterns();
        let i = shift.pattern() as int;
        assert(first_with_value(patterns, shift.shift_size() as u32, i));
        lemma_pattern_of(patterns, shift.shift_size() as u32, i);
        assert(first_with_pattern(patterns, shift.pattern() as u32, i));
        lemma_value_of(patterns, shift.pattern() as u32, i);
    }
}

impl BitLayout {
    /// Whether a write of `value` to the part `name` is defined: the
    /// layout has the part, and an enumerated part lists the value.
    pub fn accepts(&self, name: &str, value: u32) -> (defined: bool)
        requires
            self@.wf(),
        ensures
            defined == self@.accepts(name@, value),
    {
        match self.locate(name) {
            Some((i, _)) => {
                proof {
                    self@.lemma_index_of(name@, i as int);
                }
                match &self.layout[i].layout_type {
                    PartType::BitPattern(patterns) => {
                        match find_value(patterns, value) {
                            Some(k) => {
                                proof {
                                    lemma_pattern_of(patterns@, value, k as int);
                                }
                                true
                            },
                            None => false,
                        }
                    },
                    PartType::Immediate => true,
                }
            },
            None => false,
        }
    }

    /// Whether the part `name` of `word` can be read back as a value: the
    /// layout has the part, and an enumerated part lists the bits that
    /// `word` holds there.
    pub fn reads(&self, name: &str, word: u32) -> (defined: bool)
        requires
            self@.wf(),
        ensures
            defined == self@.reads(name@, word),
    {
        match self.locate(name) {
            Some((i, start)) => {
                proof {
                    self@.lemma_index_of(name@, i as int);
                    self@.lemma_part_fits(i as int);
                }
                let part = &self.layout[i];
                let raw = extract_bits(word, start, part.length);
                match &part.layout_type {
                    PartType::BitPattern(patterns) => {
                        match find_pattern(patterns, raw) {
                            Some(k) => {
                                proof {
                                    lemma_value_of(patterns@, raw, k as int);
                                }
                                true
                            },
                            None => false,
                        }
                    },
                    PartType::Immediate => true,
                }
            },
            None => false,
        }
    }
}

impl InstructionTable {
    /// Whether no entry before `position` has the name or the pseudo-op of
    /// the entry at `position`.
    fn entry_is_new(&self, position: usize) -> (new: bool)
        requires
            position < self.table@.len(),
        ensures
            new == forall|i: int|
                0 <= i < position ==> (#[trigger] self@.entries[i]).name
                    != self@.entries[position as int].name && self@.entries[i].layout.pseudoop
                    != self@.entries[position as int].layout.pseudoop,
    {
        let mut i: usize = 0;
        while i < position
            invariant
                0 <= i <= position < self.table@.len(),
                forall|k: int|
                    0 <= k < i ==> (#[trigger] self@.entries[k]).name
                        != self@.entries[position as int].name && self@.entries[k].layout.pseudoop
                        != self@.entries[position as int].layout.pseudoop,
            decreases position - i,
        {
            if str_eq(self.table[i].name.as_str(), self.table[position].name.as_str())
                || self.table[i].layout.instruction_pseudoop
                == self.table[position].layout.instruction_pseudoop {
                assert(self@.entries[i as int].name == self@.entries[position as int].name
                    || self@.entries[i as int].layout.pseudoop
                    == self@.entries[position as int].layout.pseudoop);
                return false;
            }
            i += 1;
        }
        true
    }

    /// Whether the reverse index is right about the pseudo-op `op`.
    #[verifier::loop_isolation(false)]
    fn index_is_right(&self, op: u8) -> (right: bool)
        requires
            op < 32,
            self.pseudoops@.len() == 32,
        ensures
            right == match self@.pseudoops[op as int] {
                Some(i) => self@.coded(op, i as int),
                None => !self@.has_pseudoop(op),
            },
    {
        match self.pseudoops[op as usize] {
            Some(i) => i < self.table.len() && self.table[i].layout.instruction_pseudoop == op,
            None => {
                let mut i: usize = 0;
                while i < self.table.len()
                    invariant
                        0 <= i <= self.table.len(),
                        forall|k: int| 0 <= k < i ==> !#[trigger] self@.coded(op, k),
                    decreases self.table.len() - i,
                {
                    if self.table[i].layout.instruction_pseudoop == op {
                        assert(self@.coded(op, i as int));
                        return false;
                    }
                    i += 1;
                }
                true
            },
        }
    }

    /// Checks the table: every layout is well formed, no name and no
    /// pseudo-op occurs twice, and the reverse index lists exactly the
    /// pseudo-ops in use.
    #[verifier::loop_isolation(false)]
    pub fn is_valid(&self) -> (ok: bool)
        ensures
            ok == self@.wf(),
    {
        proof {
            reveal(InstructionTableView::wf);
        }
        if self.pseudoops.len() != 32 {
            return false;
        }
        let mut i: usize = 0;
        while i < self.table.len()
            invariant
                0 <= i <= self.table.len(),
                forall|k: int| 0 <= k < i ==> (#[trigger] self@.entries[k]).layout.wf(),
                forall|a: int, b: int|
                    0 <= a < b < i ==> (#[trigger] self@.entries[a]).name != (
                    #[trigger] self@.entries[b]).name,
                forall|a: int, b: int|
                    0 <= a < b < i ==> (#[trigger] self@.entries[a]).layout.pseudoop != (
                    #[trigger] self@.entries[b]).layout.pseudoop,
            decreases self.table.len() - i,
        {
            if !self.table[i].layout.is_valid() {
                assert(!self@.entries[i as int].layout.wf());
                return false;
            }
            if !self.entry_is_new(i) {
                return false;
            }
            i += 1;
        }
        let mut op: u8 = 0;
        while op < 32
            invariant
                0 <= op <= 32,
                self.pseudoops@.len() == 32,
                forall|o: int|
                    0 <= o < op ==> match #[trigger] self@.pseudoops[o] {
                        Some(i) => self@.coded(o as u8, i as int),
                        None => !self@.has_pseudoop(o as u8),
                    },
            decreases 32 - op,
        {
            if !self.index_is_right(op) {
                return false;
            }
            op += 1;
        }
        true
    }
}

} // verus!
