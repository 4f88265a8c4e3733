//! The instructions of the virtual machine, in decoded form.
use vstd::prelude::*;

use crate::class::{
    argument_kinds_view, optional_kind_view, ArgumentKind, ArgumentKindModel, ClassIdentifier,
};

verus! {

/// Name and parameter/return kinds of a method.
pub struct MethodDescriptor {
    pub name: String,
    pub descriptor: (Vec<ArgumentKind>, Option<ArgumentKind>),
}

impl MethodDescriptor {
    /// The parameter kinds, as abstract values.
    pub open spec fn parameters_view(&self) -> Seq<ArgumentKindModel> {
        argument_kinds_view(self.descriptor.0@)
    }

    /// The return kind, as an abstract value.
    pub open spec fn return_view(&self) -> Option<ArgumentKindModel> {
        optional_kind_view(self.descriptor.1)
    }
}

/// A method named by its class, its name and its descriptor; resolved when it is invoked.
pub struct SymbolicMethod {
    pub class_name: ClassIdentifier,
    pub descriptor: MethodDescriptor,
}

impl SymbolicMethod {
    /// The parameter kinds of the method, as abstract values.
    pub open spec fn parameters_view(&self) -> Seq<ArgumentKindModel> {
        argument_kinds_view(self.descriptor.descriptor.0@)
    }

    /// The return kind of the method, as an abstract value.
    pub open spec fn return_view(&self) -> Option<ArgumentKindModel> {
        optional_kind_view(self.descriptor.descriptor.1)
    }
}

/// A constant that `ldc` pushes. Float and double constants are IEEE 754 bit patterns.
pub enum Ldc {
    Int(i32),
    Float(u32),
    String(String),
    Long(i64),
    Double(u64),
}

/// Direction of a relative jump.
#[derive(Clone, Copy, PartialEq, Eq, Structural)]
pub enum OffsetDirection {
    Forward,
    Backward,
}

/// Result of a floating point comparison when one operand is NaN: 1 (`Pg`) or -1 (`Pl`).
#[derive(Debug, Clone, Copy, PartialEq, Eq, Structural)]
pub enum FloatCmp {
    Pg,
    Pl,
}

/// Variants of the `dup` instructions.
#[derive(Clone, Copy, PartialEq, Eq, Structural)]
pub enum Dup {
    Dup,
    X1,
    X2,
}

/// Element type of the arrays that `newarray` creates.
#[derive(Clone, Copy, PartialEq, Eq, Structural)]
pub enum ArrayType {
    Boolean,
    Char,
    Float,
    Double,
    Byte,
    Short,
    Int,
    Long,
}

/// The array type that the operand of `newarray` encodes (4 to 11).
pub open spec fn array_type_of(value: u8) -> Option<ArrayType> {
    if value == 4 {
        Some(ArrayType::Boolean)
    } else if value == 5 {
        Some(ArrayType::Char)
    } else if value == 6 {
        Some(ArrayType::Float)
    } else if value == 7 {
        Some(ArrayType::Double)
    } else if value == 8 {
        Some(ArrayType::Byte)
    } else if value == 9 {
        Some(ArrayType::Short)
    } else if value == 10 {
        Some(ArrayType::Int)
    } else if value == 11 {
        Some(ArrayType::Long)
    } else {
        None
    }
}

impl ArrayType {
    /// Decodes the operand of `newarray`.
    pub fn from_int(value: u8) -> (r: ArrayType)
        requires
            4 <= value <= 11,
        ensures
            array_type_of(value) == Some(r),
    {
        match value {
            4 => ArrayType::Boolean,
            5 => ArrayType::Char,
            6 => ArrayType::Float,
            7 => ArrayType::Double,
            8 => ArrayType::Byte,
            9 => ArrayType::Short,
            10 => ArrayType::Int,
            _ => ArrayType::Long,
        }
    }
}

/// A decoded instruction. Jump offsets count instructions, not bytes; local variable
/// operands are indices into the local variables; float and double constants are IEEE 754
/// bit patterns.
pub enum OpCode {
    Aaload,
    Aastore,
    AconstNull,
    Aload(usize),
    /// Creates an array of the given array class.
    AnewArray(ClassIdentifier),
    Areturn,
    ArrayLength,
    Astore(usize),
    Athrow,
    Baload,
    Bastore,
    Bipush(i32),
    Caload,
    Castore,
    Checkcast(u16),
    D2f,
    D2i,
    D2l,
    Dadd,
    Daload,
    Dastore,
    Dcmp(FloatCmp),
    Dconst(u64),
    Ddiv,
    Dload(usize),
    Dmul,
    Dneg,
    Drem,
    Dreturn,
    Dstore(usize),
    Dsub,
    Dup(Dup),
    Dup2(Dup),
    F2d,
    F2i,
    F2l,
    Fadd,
    Faload,
    Fastore,
    Fcmp(FloatCmp),
    Fconst(u32),
    Fdiv,
    Fload(usize),
    Fmul,
    Fneg,
    Frem,
    Freturn,
    Fstore(usize),
    Fsub,
    GetField { class: ClassIdentifier, field_name: String },
    GetStatic { class: ClassIdentifier, field_name: String },
    Goto(usize, OffsetDirection),
    I2b,
    I2c,
    I2d,
    I2f,
    I2l,
    I2s,
    Iadd,
    Iaload,
    Iand,
    Iastore,
    Iconst(i32),
    Idiv,
    IfacmpNe(usize, OffsetDirection),
    IfacmpEq(usize, OffsetDirection),
    IficmpEq(usize, OffsetDirection),
    IficmpNe(usize, OffsetDirection),
    IficmpLt(usize, OffsetDirection),
    IficmpGe(usize, OffsetDirection),
    IficmpGt(usize, OffsetDirection),
    IficmpLe(usize, OffsetDirection),
    IfEq(usize, OffsetDirection),
    IfNe(usize, OffsetDirection),
    IfLt(usize, OffsetDirection),
    IfGe(usize, OffsetDirection),
    IfGt(usize, OffsetDirection),
    IfLe(usize, OffsetDirection),
    IfNonNull(usize, OffsetDirection),
    IfNull(usize, OffsetDirection),
    Iinc { index: usize, constant: i32 },
    Iload(usize),
    Imul,
    Ineg,
    InstanceOf(u16),
    InvokeDynamic(u16),
    InvokeInterface(u16),
    InvokeSpecial(SymbolicMethod),
    InvokeStatic(SymbolicMethod),
    InvokeVirtual(SymbolicMethod),
    Ior,
    Irem,
    Ireturn,
    Ishl,
    Ishr,
    Istore(usize),
    Isub,
    Iushr,
    Ixor,
    Jsr(usize, OffsetDirection),
    L2d,
    L2f,
    L2i,
    Ladd,
    Laload,
    Land,
    Lastore,
    Lcmp,
    Lconst(i64),
    Ldc(Ldc),
    Ldiv,
    Lload(usize),
    Lmul,
    Lneg,
    Lookupswitch,
    Lor,
    Lrem,
    Lreturn,
    Lshl,
    Lshr,
    Lstore(usize),
    Lsub,
    Lushr,
    Lxor,
    Monitorenter,
    Monitorexit,
    /// Creates a multi-dimensional array of the given array class.
    MultiAnewArray(ClassIdentifier),
    New(ClassIdentifier),
    NewArray(ArrayType),
    Nop,
    Pop,
    Pop2,
    PutField { class: ClassIdentifier, field_name: String },
    PutStatic { class: ClassIdentifier, field_name: String },
    Ret(usize),
    Return,
    Saload,
    Sastore,
    Sipush(i32),
    Swap,
    Tableswitch,
}

} // verus!
