//! Entries of a class file's constant pool.
use vstd::prelude::*;

verus! {

/// Kind of a method handle constant.
#[derive(Clone, Copy, PartialEq, Eq, Structural)]
pub enum ReferenceKind {
    GetField,
    GetStatic,
    PutField,
    PutStatic,
    InvokeVirtual,
    InvokeStatic,
    InvokeSpecial,
    NewInvokeSpecial,
    InvokeInterface,
}

/// The reference kind that a class file encodes as `kind` (1 to 9).
pub open spec fn reference_kind_of(kind: u8) -> Option<ReferenceKind> {
    if kind == 1 {
        Some(ReferenceKind::GetField)
    } else if kind == 2 {
        Some(ReferenceKind::GetStatic)
    } else if kind == 3 {
        Some(ReferenceKind::PutField)
    } else if kind == 4 {
        Some(ReferenceKind::PutStatic)
    } else if kind == 5 {
        Some(ReferenceKind::InvokeVirtual)
    } else if kind == 6 {
        Some(ReferenceKind::InvokeStatic)
    } else if kind == 7 {
        Some(ReferenceKind::InvokeSpecial)
    } else if kind == 8 {
        Some(ReferenceKind::NewInvokeSpecial)
    } else if kind == 9 {
        Some(ReferenceKind::InvokeInterface)
    } else {
        None
    }
}

impl ReferenceKind {
    /// Decodes a reference kind; kinds outside 1 to 9 are refused.
    pub fn try_from_u8(kind: u8) -> (r: Result<ReferenceKind, &'static str>)
        ensures
            r is Ok <==> reference_kind_of(kind) is Some,
            r matches Ok(k) ==> reference_kind_of(kind) == Some(k),
    {
        match kind {
            1 => Ok(ReferenceKind::GetField),
            2 => Ok(ReferenceKind::GetStatic),
            3 => Ok(ReferenceKind::PutField),
            4 => Ok(ReferenceKind::PutStatic),
            5 => Ok(ReferenceKind::InvokeVirtual),
            6 => Ok(ReferenceKind::InvokeStatic),
            7 => Ok(ReferenceKind::InvokeSpecial),
            8 => Ok(ReferenceKind::NewInvokeSpecial),
            9 => Ok(ReferenceKind::InvokeInterface),
            _ => Err("ReferenceKind must be between 1-9 (inclusive)!"),
        }
    }
}

/// The abstract value of a [`CpInfo`].
pub enum CpInfoModel {
    ClassInfo { name_index: u16 },
    FieldRefInfo { class_index: u16, name_and_type_index: u16 },
    MethodRefInfo { class_index: u16, name_and_type_index: u16 },
    InterfaceMethodRefInfo { class_index: u16, name_and_type_index: u16 },
    StringInfo { string_index: u16 },
    IntegerInfo(i32),
    FloatInfo(u32),
    LongInfo(i64),
    DoubleInfo(u64),
    Reserved,
    NameAndTypeInfo { name_index: u16, descriptor_index: u16 },
    UTF8INFO(Seq<char>),
    MethodHandleInfo { reference_kind: ReferenceKind, reference_index: u16 },
    MethodTypeInfo { descriptor_index: u16 },
    InvokeDynamicInfo { bootstrap_method_attr_index: u16, name_and_type_index: u16 },
}

/// One constant pool entry. Float and double constants are held as their IEEE 754 bit
/// patterns; the slot after a long or double constant holds `Reserved`.
pub enum CpInfo {
    ClassInfo { name_index: u16 },
    FieldRefInfo { class_index: u16, name_and_type_index: u16 },
    MethodRefInfo { class_index: u16, name_and_type_index: u16 },
    InterfaceMethodRefInfo { class_index: u16, name_and_type_index: u16 },
    StringInfo { string_index: u16 },
    IntegerInfo(i32),
    FloatInfo(u32),
    LongInfo(i64),
    DoubleInfo(u64),
    Reserved,
    NameAndTypeInfo { name_index: u16, descriptor_index: u16 },
    UTF8INFO(String),
    MethodHandleInfo { reference_kind: ReferenceKind, reference_index: u16 },
    MethodTypeInfo { descriptor_index: u16 },
    InvokeDynamicInfo { bootstrap_method_attr_index: u16, name_and_type_index: u16 },
}

impl View for CpInfo {
    type V = CpInfoModel;

    open spec fn view(&self) -> CpInfoModel {
        match self {
            CpInfo::ClassInfo { name_index } => CpInfoModel::ClassInfo { name_index: *name_index },
            CpInfo::FieldRefInfo { class_index, name_and_type_index } => CpInfoModel::FieldRefInfo {
                class_index: *class_index,
                name_and_type_index: *name_and_type_index,
            },
            CpInfo::MethodRefInfo { class_index, name_and_type_index } =>
                CpInfoModel::MethodRefInfo {
                    class_index: *class_index,
                    name_and_type_index: *name_and_type_index,
                },
            CpInfo::InterfaceMethodRefInfo { class_index, name_and_type_index } =>
                CpInfoModel::InterfaceMethodRefInfo {
                    class_index: *class_index,
                    name_and_type_index: *name_and_type_index,
                },
            CpInfo::StringInfo { string_index } => CpInfoModel::StringInfo {
                string_index: *string_index,
            },
            CpInfo::IntegerInfo(v) => CpInfoModel::IntegerInfo(*v),
            CpInfo::FloatInfo(v) => CpInfoModel::FloatInfo(*v),
            CpInfo::LongInfo(v) => CpInfoModel::LongInfo(*v),
            CpInfo::DoubleInfo(v) => CpInfoModel::DoubleInfo(*v),
            CpInfo::Reserved => CpInfoModel::Reserved,
            CpInfo::NameAndTypeInfo { name_index, descriptor_index } =>
                CpInfoModel::NameAndTypeInfo {
                    name_index: *name_index,
                    descriptor_index: *descriptor_index,
                },
            CpInfo::UTF8INFO(s) => CpInfoModel::UTF8INFO(s@),
            CpInfo::MethodHandleInfo { reference_kind, reference_index } =>
                CpInfoModel::MethodHandleInfo {
                    reference_kind: *reference_kind,
                    reference_index: *reference_index,
                },
            CpInfo::MethodTypeInfo { descriptor_index } => CpInfoModel::MethodTypeInfo {
                descriptor_index: *descriptor_index,
            },
            CpInfo::InvokeDynamicInfo { bootstrap_method_attr_index, name_and_type_index } =>
                CpInfoModel::InvokeDynamicInfo {
                    bootstrap_method_attr_index: *bootstrap_method_attr_index,
                    name_and_type_index: *name_and_type_index,
                },
        }
    }
}

/// The abstract values of a list of constant pool entries.
pub open spec fn cp_view(v: Seq<CpInfo>) -> Seq<CpInfoModel> {
    v.map_values(|e: CpInfo| e@)
}

impl CpInfo {
    pub fn as_class_info(&self) -> (r: Option<u16>)
        ensures
            r == (match self@ {
                CpInfoModel::ClassInfo { name_index } => Some(name_index),
                _ => None,
            }),
    {
        if let CpInfo::ClassInfo { name_index } = *self {
            Some(name_index)
        } else {
            None
        }
    }

    pub fn as_field_ref_info(&self) -> (r: Option<(u16, u16)>)
        ensures
            r == (match self@ {
                CpInfoModel::FieldRefInfo { class_index, name_and_type_index } => Some(
                    (class_index, name_and_type_index),
                ),
                _ => None,
            }),
    {
        if let CpInfo::FieldRefInfo { class_index, name_and_type_index } = *self {
            Some((class_index, name_and_type_index))
        } else {
            None
        }
    }

    pub fn as_method_ref_info(&self) -> (r: Option<(u16, u16)>)
        ensures
            r == (match self@ {
                CpInfoModel::MethodRefInfo { class_index, name_and_type_index } => Some(
                    (class_index, name_and_type_index),
                ),
                _ => None,
            }),
    {
        if let CpInfo::MethodRefInfo { class_index, name_and_type_index } = *self {
            Some((class_index, name_and_type_index))
        } else {
            None
        }
    }

    pub fn as_interface_ref_info(&self) -> (r: Option<(u16, u16)>)
        ensures
            r == (match self@ {
                CpInfoModel::InterfaceMethodRefInfo { class_index, name_and_type_index } => Some(
                    (class_index, name_and_type_index),
                ),
                _ => None,
            }),
    {
        if let CpInfo::InterfaceMethodRefInfo { class_index, name_and_type_index } = *self {
            Some((class_index, name_and_type_index))
        } else {
            None
        }
    }

    pub fn as_string_info(&self) -> (r: Option<u16>)
        ensures
            r == (match self@ {
                CpInfoModel::StringInfo { string_index } => Some(string_index),
                _ => None,
            }),
    {
        if let CpInfo::StringInfo { string_index } = *self {
            Some(string_index)
        } else {
            None
        }
    }

    pub fn as_integer_info(&self) -> (r: Option<i32>)
        ensures
            r == (match self@ {
                CpInfoModel::IntegerInfo(v) => Some(v),
                _ => None,
            }),
    {
        if let CpInfo::IntegerInfo(value) = *self {
            Some(value)
        } else {
            None
        }
    }

    /// The bit pattern of a float constant.
    pub fn as_float_info(&self) -> (r: Option<u32>)
        ensures
            r == (match self@ {
                CpInfoModel::FloatInfo(v) => Some(v),
                _ => None,
            }),
    {
        if let CpInfo::FloatInfo(value) = *self {
            Some(value)
        } else {
            None
        }
    }

    pub fn as_long_info(&self) -> (r: Option<i64>)
        ensures
            r == (match self@ {
                CpInfoModel::LongInfo(v) => Some(v),
                _ => None,
            }),
    {
        if let CpInfo::LongInfo(value) = *self {
            Some(value)
        } else {
            None
        }
    }

    /// The bit pattern of a double constant.
    pub fn as_double_info(&self) -> (r: Option<u64>)
        ensures
            r == (match self@ {
                CpInfoModel::DoubleInfo(v) => Some(v),
                _ => None,
            }),
    {
        if let CpInfo::DoubleInfo(value) = *self {
            Some(value)
        } else {
            None
        }
    }

    pub fn as_name_and_type_info(&self) -> (r: Option<(u16, u16)>)
        ensures
            r == (match self@ {
                CpInfoModel::NameAndTypeInfo { name_index, descriptor_index } => Some(
                    (name_index, descriptor_index),
                ),
                _ => None,
            }),
    {
        if let CpInfo::NameAndTypeInfo { name_index, descriptor_index } = *self {
            Some((name_index, descriptor_index))
        } else {
            None
        }
    }

    pub fn as_utf8_info(&self) -> (r: Option<&str>)
        ensures
            r is Some <==> self@ is UTF8INFO,
            r matches Some(s) ==> self@ == CpInfoModel::UTF8INFO(s@),
    {
        if let CpInfo::UTF8INFO(value) = self {
            Some(value.as_str())
        } else {
            None
        }
    }

    pub fn as_mehod_handle_info(&self) -> (r: Option<(ReferenceKind, u16)>)
        ensures
            r == (match self@ {
                CpInfoModel::MethodHandleInfo { reference_kind, reference_index } => Some(
                    (reference_kind, reference_index),
                ),
                _ => None,
            }),
    {
        if let CpInfo::MethodHandleInfo { reference_kind, reference_index } = *self {
            Some((reference_kind, reference_index))
        } else {
            None
        }
    }

    pub fn as_method_type_info(&self) -> (r: Option<u16>)
        ensures
            r == (match self@ {
                CpInfoModel::MethodTypeInfo { descriptor_index } => Some(descriptor_index),
                _ => None,
            }),
    {
        if let CpInfo::MethodTypeInfo { descriptor_index } = *self {
            Some(descriptor_index)
        } else {
            None
        }
    }

    pub fn as_invoke_dynamic_info(&self) -> (r: Option<(u16, u16)>)
        ensures
            r == (match self@ {
                CpInfoModel::InvokeDynamicInfo {
                    bootstrap_method_attr_index,
                    name_and_type_index,
                } => Some((bootstrap_method_attr_index, name_and_type_index)),
                _ => None,
            }),
    {
        if let CpInfo::InvokeDynamicInfo { bootstrap_method_attr_index, name_and_type_index } =
            *self {
            Some((bootstrap_method_attr_index, name_and_type_index))
        } else {
            None
        }
    }
}

} // verus!
