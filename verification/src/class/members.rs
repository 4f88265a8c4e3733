//! The members of a loaded class: fields, methods and their code.
use vstd::prelude::*;

use crate::class::{
    argument_kinds_view, optional_kind_view, ArgumentKind, ArgumentKindModel, ClassIdentifier,
    ClassIdentifierModel,
};
use crate::executor::op_code::OpCode;

verus! {

/// The type of an instance field, which decides its default value.
#[derive(Clone, Copy, PartialEq, Eq, Structural)]
pub enum FieldKind {
    Byte,
    Short,
    Int,
    Long,
    Char,
    Float,
    Double,
    Boolean,
    Reference,
}

/// Name and type of an instance field; every instance gets its own value.
pub struct FieldDescriptor {
    pub name: String,
    pub kind: FieldKind,
}

/// The value of a field. Floating point values are IEEE 754 bit patterns; a reference is
/// the index of an object on the heap, or `None` for `null`. Booleans are 0 or 1.
#[derive(Clone, Copy, PartialEq, Eq, Structural)]
pub enum FieldValue {
    Byte(i8),
    Short(i16),
    Int(i32),
    Long(i64),
    Char(u16),
    Float(u32),
    Double(u64),
    Boolean(u8),
    Reference(Option<usize>),
}

/// The default value of a field of the given kind: zero, or `null` for references.
pub open spec fn default_value(kind: FieldKind) -> FieldValue {
    match kind {
        FieldKind::Byte => FieldValue::Byte(0),
        FieldKind::Short => FieldValue::Short(0),
        FieldKind::Int => FieldValue::Int(0),
        FieldKind::Long => FieldValue::Long(0),
        FieldKind::Char => FieldValue::Char(0),
        FieldKind::Float => FieldValue::Float(0),
        FieldKind::Double => FieldValue::Double(0),
        FieldKind::Boolean => FieldValue::Boolean(0),
        FieldKind::Reference => FieldValue::Reference(None),
    }
}

/// The kind of a field with the given type descriptor. Every descriptor other than the
/// eight primitive ones (`B C D F I J S Z`) denotes a reference.
pub open spec fn descriptor_kind(descriptor: Seq<char>) -> FieldKind {
    if descriptor == seq!['B'] {
        FieldKind::Byte
    } else if descriptor == seq!['C'] {
        FieldKind::Char
    } else if descriptor == seq!['D'] {
        FieldKind::Double
    } else if descriptor == seq!['F'] {
        FieldKind::Float
    } else if descriptor == seq!['I'] {
        FieldKind::Int
    } else if descriptor == seq!['J'] {
        FieldKind::Long
    } else if descriptor == seq!['S'] {
        FieldKind::Short
    } else if descriptor == seq!['Z'] {
        FieldKind::Boolean
    } else {
        FieldKind::Reference
    }
}

impl FieldValue {
    /// The default byte value.
    pub fn byte() -> (r: Self)
        ensures
            r == default_value(FieldKind::Byte),
    {
        FieldValue::Byte(0)
    }

    /// The default short value.
    pub fn short() -> (r: Self)
        ensures
            r == default_value(FieldKind::Short),
    {
        FieldValue::Short(0)
    }

    /// The default int value.
    pub fn integer() -> (r: Self)
        ensures
            r == default_value(FieldKind::Int),
    {
        FieldValue::Int(0)
    }

    /// The default long value.
    pub fn long() -> (r: Self)
        ensures
            r == default_value(FieldKind::Long),
    {
        FieldValue::Long(0)
    }

    /// The default char value.
    pub fn char() -> (r: Self)
        ensures
            r == default_value(FieldKind::Char),
    {
        FieldValue::Char(0)
    }

    /// The default float value, positive zero.
    pub fn float() -> (r: Self)
        ensures
            r == default_value(FieldKind::Float),
    {
        FieldValue::Float(0)
    }

    /// The default double value, positive zero.
    pub fn double() -> (r: Self)
        ensures
            r == default_value(FieldKind::Double),
    {
        FieldValue::Double(0)
    }

    /// The default boolean value, `false`.
    pub fn boolean() -> (r: Self)
        ensures
            r == default_value(FieldKind::Boolean),
    {
        FieldValue::Boolean(0)
    }

    /// The default reference value, `null`.
    pub fn reference() -> (r: Self)
        ensures
            r == default_value(FieldKind::Reference),
    {
        FieldValue::Reference(None)
    }

    /// The default value of a field of the given kind.
    pub fn default_for(kind: FieldKind) -> (r: Self)
        ensures
            r == default_value(kind),
    {
        match kind {
            FieldKind::Byte => FieldValue::byte(),
            FieldKind::Short => FieldValue::short(),
            FieldKind::Int => FieldValue::integer(),
            FieldKind::Long => FieldValue::long(),
            FieldKind::Char => FieldValue::char(),
            FieldKind::Float => FieldValue::float(),
            FieldKind::Double => FieldValue::double(),
            FieldKind::Boolean => FieldValue::boolean(),
            FieldKind::Reference => FieldValue::reference(),
        }
    }
}

/// A named field together with its current value.
pub struct Field {
    pub name: String,
    pub value: FieldValue,
}

impl View for Field {
    type V = (Seq<char>, FieldValue);

    open spec fn view(&self) -> (Seq<char>, FieldValue) {
        (self.name@, self.value)
    }
}

impl View for FieldDescriptor {
    type V = (Seq<char>, FieldKind);

    open spec fn view(&self) -> (Seq<char>, FieldKind) {
        (self.name@, self.kind)
    }
}

/// The abstract values of a list of fields.
pub open spec fn fields_view(v: Seq<Field>) -> Seq<(Seq<char>, FieldValue)> {
    v.map_values(|f: Field| f@)
}

/// The abstract values of a list of field descriptors.
pub open spec fn field_descriptors_view(v: Seq<FieldDescriptor>) -> Seq<(Seq<char>, FieldKind)> {
    v.map_values(|f: FieldDescriptor| f@)
}

/// One exception handler of a method: while an instruction in `active` runs, exceptions
/// of `catch_type` (or of any class, when `None`) continue at `handler_position`.
/// Positions count instructions.
pub struct ExceptionTable {
    pub active: core::ops::Range<usize>,
    pub handler_position: usize,
    pub catch_type: Option<ClassIdentifier>,
}

/// The abstract value of an [`ExceptionTable`] entry.
pub struct ExceptionTableModel {
    pub start: usize,
    pub end: usize,
    pub handler_position: usize,
    pub catch_type: Option<ClassIdentifierModel>,
}

impl View for ExceptionTable {
    type V = ExceptionTableModel;

    open spec fn view(&self) -> ExceptionTableModel {
        ExceptionTableModel {
            start: self.active.start,
            end: self.active.end,
            handler_position: self.handler_position,
            catch_type: match self.catch_type {
                Some(c) => Some(c@),
                None => None,
            },
        }
    }
}

/// The abstract values of a list of exception handlers.
pub open spec fn exception_tables_view(v: Seq<ExceptionTable>) -> Seq<ExceptionTableModel> {
    v.map_values(|e: ExceptionTable| e@)
}

/// The bytecode of a method with the sizes that the class file gives for it.
pub struct Code {
    pub stack_depth: usize,
    pub local_variable_count: usize,
    pub exception_table: Vec<ExceptionTable>,
    pub byte_code: Vec<OpCode>,
}

/// A method that the virtual machine provides itself; what it does reaches outside the
/// machine (printing, reading) and is carried out by the program that runs the machine.
#[derive(Debug, Clone, Copy, PartialEq, Eq, Structural)]
pub enum NativeMethod {
    /// `Object.<init>`: does nothing.
    ObjectInit,
    /// `PrintStream.println(Object)`.
    PrintlnObject,
    /// `PrintStream.println(String)`.
    PrintlnString,
    /// `PrintStream.println(boolean)`.
    PrintlnBoolean,
    /// `PrintStream.println(char)`.
    PrintlnChar,
    /// `PrintStream.println(double)`.
    PrintlnDouble,
    /// `PrintStream.println(float)`.
    PrintlnFloat,
    /// `PrintStream.println(int)`.
    PrintlnInt,
    /// `PrintStream.println(long)`.
    PrintlnLong,
    /// `FileInputStream.read()`: the next byte of the standard input.
    ReadByte,
    /// `Throwable.<init>(String)`: records the message.
    ThrowableInit,
    /// `Throwable.get_message()`: the recorded message.
    ThrowableGetMessage,
}

/// How a method runs: by interpreting its bytecode or natively.
pub enum MethodCode {
    Bytecode(std::rc::Rc<Code>),
    Native(NativeMethod),
}

/// A method of a loaded class.
pub struct Method {
    pub code: MethodCode,
    pub name: String,
    pub parameters: Vec<ArgumentKind>,
    pub return_type: Option<ArgumentKind>,
    pub is_static: bool,
}

impl Method {
    /// The parameter kinds, as abstract values.
    pub open spec fn parameters_view(&self) -> Seq<ArgumentKindModel> {
        argument_kinds_view(self.parameters@)
    }

    /// The return kind, as an abstract value.
    pub open spec fn return_view(&self) -> Option<ArgumentKindModel> {
        optional_kind_view(self.return_type)
    }
}

/// A class loaded from a class file.
pub struct BytecodeClass {
    pub methods: Vec<Method>,
    pub static_fields: Vec<Field>,
    pub instance_fields: Vec<FieldDescriptor>,
    pub class_identifier: ClassIdentifier,
    pub super_class: Option<ClassIdentifier>,
    pub interfaces: Vec<ClassIdentifier>,
    pub access_flags: u16,
}

} // verus!
