//! Access flags of classes, fields and methods, held as the 16-bit masks of the class file.
use vstd::prelude::*;

verus! {

pub const CLASS_PUBLIC: u16 = 0x0001;
pub const CLASS_FINAL: u16 = 0x0010;
pub const CLASS_SUPER: u16 = 0x0020;
pub const CLASS_INTERFACE: u16 = 0x0200;
pub const CLASS_ABSTRACT: u16 = 0x0400;
pub const CLASS_SYNTHETIC: u16 = 0x1000;
pub const CLASS_ANNOTATION: u16 = 0x2000;
pub const CLASS_ENUM: u16 = 0x4000;

/// Every flag that a class may carry.
pub const CLASS_FLAGS: u16 = 0x7631;

pub const FIELD_PUBLIC: u16 = 0x0001;
pub const FIELD_PRIVATE: u16 = 0x0002;
pub const FIELD_PROTECTED: u16 = 0x0004;
pub const FIELD_STATIC: u16 = 0x0008;
pub const FIELD_FINAL: u16 = 0x0010;
pub const FIELD_VOLATILE: u16 = 0x0040;
pub const FIELD_TRANSIENT: u16 = 0x0080;
pub const FIELD_SYNTHETIC: u16 = 0x1000;
pub const FIELD_ENUM: u16 = 0x4000;

/// Every flag that a field may carry.
pub const FIELD_FLAGS: u16 = 0x50df;

pub const METHOD_PUBLIC: u16 = 0x0001;
pub const METHOD_PRIVATE: u16 = 0x0002;
pub const METHOD_PROTECTED: u16 = 0x0004;
pub const METHOD_STATIC: u16 = 0x0008;
pub const METHOD_FINAL: u16 = 0x0010;
pub const METHOD_SYNCHRONIZED: u16 = 0x0020;
pub const METHOD_BRIDGE: u16 = 0x0040;
pub const METHOD_VARGS: u16 = 0x0080;
pub const METHOD_NATIVE: u16 = 0x0100;
pub const METHOD_ABSTRACT: u16 = 0x0400;
pub const METHOD_STRICT: u16 = 0x0800;
pub const METHOD_SYNTHETIC: u16 = 0x1000;

/// Every flag that a method may carry.
pub const METHOD_FLAGS: u16 = 0x1dff;

/// Whether `bits` only sets flags out of `known`.
pub open spec fn flags_known(bits: u16, known: u16) -> bool {
    bits & !known == 0
}

/// Checks that `bits` only sets flags out of `known`.
pub fn check_flags(bits: u16, known: u16) -> (r: bool)
    ensures
        r == flags_known(bits, known),
{
    bits & !known == 0
}

/// Whether the flag mask `bits` contains `flag`.
pub open spec fn has_flag(bits: u16, flag: u16) -> bool {
    bits & flag == flag
}

/// Tests whether the flag mask `bits` contains `flag`.
pub fn contains_flag(bits: u16, flag: u16) -> (r: bool)
    ensures
        r == has_flag(bits, flag),
{
    bits & flag == flag
}


/// A flag that a class may carry.
#[derive(Clone, Copy, PartialEq, Eq, Structural)]
pub enum ClassAccessFlag {
    Public,
    Final,
    Super,
    Interface,
    Abstract,
    Synthetic,
    Annotation,
    Enum,
}

/// A flag that a field may carry.
#[derive(Clone, Copy, PartialEq, Eq, Structural)]
pub enum FieldAccessFlag {
    Public,
    Private,
    Protected,
    Static,
    Final,
    Volatile,
    Transient,
    Synthetic,
    Enum,
}

/// A flag that a method may carry.
#[derive(Clone, Copy, PartialEq, Eq, Structural)]
pub enum MethodAccessFlag {
    Public,
    Private,
    Protected,
    Static,
    Final,
    Synchronized,
    Bridge,
    Vargs,
    Native,
    Abstract,
    Strict,
    Synthetic,
}

/// The bit of a class flag in the class file.
pub open spec fn class_flag_bit(f: ClassAccessFlag) -> u16 {
    match f {
        ClassAccessFlag::Public => CLASS_PUBLIC,
        ClassAccessFlag::Final => CLASS_FINAL,
        ClassAccessFlag::Super => CLASS_SUPER,
        ClassAccessFlag::Interface => CLASS_INTERFACE,
        ClassAccessFlag::Abstract => CLASS_ABSTRACT,
        ClassAccessFlag::Synthetic => CLASS_SYNTHETIC,
        ClassAccessFlag::Annotation => CLASS_ANNOTATION,
        ClassAccessFlag::Enum => CLASS_ENUM,
    }
}

/// The bit of a field flag in the class file.
pub open spec fn field_flag_bit(f: FieldAccessFlag) -> u16 {
    match f {
        FieldAccessFlag::Public => FIELD_PUBLIC,
        FieldAccessFlag::Private => FIELD_PRIVATE,
        FieldAccessFlag::Protected => FIELD_PROTECTED,
        FieldAccessFlag::Static => FIELD_STATIC,
        FieldAccessFlag::Final => FIELD_FINAL,
        FieldAccessFlag::Volatile => FIELD_VOLATILE,
        FieldAccessFlag::Transient => FIELD_TRANSIENT,
        FieldAccessFlag::Synthetic => FIELD_SYNTHETIC,
        FieldAccessFlag::Enum => FIELD_ENUM,
    }
}

/// The bit of a method flag in the class file.
pub open spec fn method_flag_bit(f: MethodAccessFlag) -> u16 {
    match f {
        MethodAccessFlag::Public => METHOD_PUBLIC,
        MethodAccessFlag::Private => METHOD_PRIVATE,
        MethodAccessFlag::Protected => METHOD_PROTECTED,
        MethodAccessFlag::Static => METHOD_STATIC,
        MethodAccessFlag::Final => METHOD_FINAL,
        MethodAccessFlag::Synchronized => METHOD_SYNCHRONIZED,
        MethodAccessFlag::Bridge => METHOD_BRIDGE,
        MethodAccessFlag::Vargs => METHOD_VARGS,
        MethodAccessFlag::Native => METHOD_NATIVE,
        MethodAccessFlag::Abstract => METHOD_ABSTRACT,
        MethodAccessFlag::Strict => METHOD_STRICT,
        MethodAccessFlag::Synthetic => METHOD_SYNTHETIC,
    }
}

impl ClassAccessFlag {
    /// The bit of this flag in the class file.
    pub fn bit(self) -> (r: u16)
        ensures
            r == class_flag_bit(self),
    {
        match self {
            ClassAccessFlag::Public => CLASS_PUBLIC,
            ClassAccessFlag::Final => CLASS_FINAL,
            ClassAccessFlag::Super => CLASS_SUPER,
            ClassAccessFlag::Interface => CLASS_INTERFACE,
            ClassAccessFlag::Abstract => CLASS_ABSTRACT,
            ClassAccessFlag::Synthetic => CLASS_SYNTHETIC,
            ClassAccessFlag::Annotation => CLASS_ANNOTATION,
            ClassAccessFlag::Enum => CLASS_ENUM,
        }
    }
}

impl FieldAccessFlag {
    /// The bit of this flag in the class file.
    pub fn bit(self) -> (r: u16)
        ensures
            r == field_flag_bit(self),
    {
        match self {
            FieldAccessFlag::Public => FIELD_PUBLIC,
            FieldAccessFlag::Private => FIELD_PRIVATE,
            FieldAccessFlag::Protected => FIELD_PROTECTED,
            FieldAccessFlag::Static => FIELD_STATIC,
            FieldAccessFlag::Final => FIELD_FINAL,
            FieldAccessFlag::Volatile => FIELD_VOLATILE,
            FieldAccessFlag::Transient => FIELD_TRANSIENT,
            FieldAccessFlag::Synthetic => FIELD_SYNTHETIC,
            FieldAccessFlag::Enum => FIELD_ENUM,
        }
    }
}

impl MethodAccessFlag {
    /// The bit of this flag in the class file.
    pub fn bit(self) -> (r: u16)
        ensures
            r == method_flag_bit(self),
    {
        match self {
            MethodAccessFlag::Public => METHOD_PUBLIC,
            MethodAccessFlag::Private => METHOD_PRIVATE,
            MethodAccessFlag::Protected => METHOD_PROTECTED,
            MethodAccessFlag::Static => METHOD_STATIC,
            MethodAccessFlag::Final => METHOD_FINAL,
            MethodAccessFlag::Synchronized => METHOD_SYNCHRONIZED,
            MethodAccessFlag::Bridge => METHOD_BRIDGE,
            MethodAccessFlag::Vargs => METHOD_VARGS,
            MethodAccessFlag::Native => METHOD_NATIVE,
            MethodAccessFlag::Abstract => METHOD_ABSTRACT,
            MethodAccessFlag::Strict => METHOD_STRICT,
            MethodAccessFlag::Synthetic => METHOD_SYNTHETIC,
        }
    }
}

} // verus!
