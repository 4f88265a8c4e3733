//! Resolution of the constant pool into the entries that the bytecode refers to at run time.
use vstd::prelude::*;

use crate::classloader::attribute_parser::{cp_text, ClassFile};
use crate::classloader::constant_pool::{cp_view, CpInfo, CpInfoModel, ReferenceKind};
use crate::classloader::raw::cp_entry_at;

verus! {

/// A constant pool entry with its references to other entries resolved to text.
pub enum RuntimeCPEntry {
    Class { name: String },
    MethodRefInfo { class: String, name: String, descriptor: String },
    FieldRefInfo { class: String, name: String, descriptor: String },
    InterfaceRefInfo { class: String, name: String, descriptor: String },
    StringInfo(String),
    IntegerInfo(i32),
    FloatInfo(u32),
    LongInfo(i64),
    DoubleInfo(u64),
    NameAndTypeInfo { name: String, descriptor: String },
    MethodHandleInfo { reference_kind: ReferenceKind, reference_index: u16 },
    MethodTypeInfo { descriptor: String },
    InvokeDynamicInfo { bootstrap_method_attr_index: u16, name_and_type_index: u16 },
    Resolved,
}

/// The abstract value of a [`RuntimeCPEntry`].
pub enum RuntimeCPEntryModel {
    Class { name: Seq<char> },
    MethodRefInfo { class: Seq<char>, name: Seq<char>, descriptor: Seq<char> },
    FieldRefInfo { class: Seq<char>, name: Seq<char>, descriptor: Seq<char> },
    InterfaceRefInfo { class: Seq<char>, name: Seq<char>, descriptor: Seq<char> },
    StringInfo(Seq<char>),
    IntegerInfo(i32),
    FloatInfo(u32),
    LongInfo(i64),
    DoubleInfo(u64),
    NameAndTypeInfo { name: Seq<char>, descriptor: Seq<char> },
    MethodHandleInfo { reference_kind: ReferenceKind, reference_index: u16 },
    MethodTypeInfo { descriptor: Seq<char> },
    InvokeDynamicInfo { bootstrap_method_attr_index: u16, name_and_type_index: u16 },
    Resolved,
}

impl View for RuntimeCPEntry {
    type V = RuntimeCPEntryModel;

    open spec fn view(&self) -> RuntimeCPEntryModel {
        match self {
            RuntimeCPEntry::Class { name } => RuntimeCPEntryModel::Class { name: name@ },
            RuntimeCPEntry::MethodRefInfo { class, name, descriptor } =>
                RuntimeCPEntryModel::MethodRefInfo {
                    class: class@,
                    name: name@,
                    descriptor: descriptor@,
                },
            RuntimeCPEntry::FieldRefInfo { class, name, descriptor } =>
                RuntimeCPEntryModel::FieldRefInfo {
                    class: class@,
                    name: name@,
                    descriptor: descriptor@,
                },
            RuntimeCPEntry::InterfaceRefInfo { class, name, descriptor } =>
                RuntimeCPEntryModel::InterfaceRefInfo {
                    class: class@,
                    name: name@,
                    descriptor: descriptor@,
                },
            RuntimeCPEntry::StringInfo(s) => RuntimeCPEntryModel::StringInfo(s@),
            RuntimeCPEntry::IntegerInfo(v) => RuntimeCPEntryModel::IntegerInfo(*v),
            RuntimeCPEntry::FloatInfo(v) => RuntimeCPEntryModel::FloatInfo(*v),
            RuntimeCPEntry::LongInfo(v) => RuntimeCPEntryModel::LongInfo(*v),
            RuntimeCPEntry::DoubleInfo(v) => RuntimeCPEntryModel::DoubleInfo(*v),
            RuntimeCPEntry::NameAndTypeInfo { name, descriptor } =>
                RuntimeCPEntryModel::NameAndTypeInfo { name: name@, descriptor: descriptor@ },
            RuntimeCPEntry::MethodHandleInfo { reference_kind, reference_index } =>
                RuntimeCPEntryModel::MethodHandleInfo {
                    reference_kind: *reference_kind,
                    reference_index: *reference_index,
                },
            RuntimeCPEntry::MethodTypeInfo { descriptor } => RuntimeCPEntryModel::MethodTypeInfo {
                descriptor: descriptor@,
            },
            RuntimeCPEntry::InvokeDynamicInfo { bootstrap_method_attr_index, name_and_type_index } =>
                RuntimeCPEntryModel::InvokeDynamicInfo {
                bootstrap_method_attr_index: *bootstrap_method_attr_index,
                name_and_type_index: *name_and_type_index,
            },
            RuntimeCPEntry::Resolved => RuntimeCPEntryModel::Resolved,
        }
    }
}

/// The abstract values of a list of run-time constant pool entries.
pub open spec fn runtime_cp_view(v: Seq<RuntimeCPEntry>) -> Seq<RuntimeCPEntryModel> {
    v.map_values(|e: RuntimeCPEntry| e@)
}

/// Removes the one-based offset of a constant pool reference.
pub fn remove_cp_offset(index: usize) -> (r: usize)
    requires
        index >= 1,
    ensures
        r == index - 1,
{
    index - 1
}

impl RuntimeCPEntry {
    /// The class name, if this is a class entry.
    pub fn as_class(&self) -> (r: Option<&str>)
        ensures
            r is Some <==> self is Class,
            r matches Some(s) ==> self@ == (RuntimeCPEntryModel::Class { name: s@ }),
    {
        if let RuntimeCPEntry::Class { name } = self {
            Some(name.as_str())
        } else {
            None
        }
    }

    /// Name, class and descriptor, in this order, if this is a field reference.
    pub fn as_field_ref(&self) -> (r: Option<(&str, &str, &str)>)
        ensures
            r is Some <==> self is FieldRefInfo,
            r matches Some((n, c, d)) ==> self@ == (RuntimeCPEntryModel::FieldRefInfo {
                class: c@,
                name: n@,
                descriptor: d@,
            }),
    {
        if let RuntimeCPEntry::FieldRefInfo { name, class, descriptor } = self {
            Some((name.as_str(), class.as_str(), descriptor.as_str()))
        } else {
            None
        }
    }

    /// Class, name and descriptor, in this order, if this is a method reference.
    pub fn as_method_ref(&self) -> (r: Option<(&str, &str, &str)>)
        ensures
            r is Some <==> self is MethodRefInfo,
            r matches Some((c, n, d)) ==> self@ == (RuntimeCPEntryModel::MethodRefInfo {
                class: c@,
                name: n@,
                descriptor: d@,
            }),
    {
        if let RuntimeCPEntry::MethodRefInfo { class, name, descriptor } = self {
            Some((class.as_str(), name.as_str(), descriptor.as_str()))
        } else {
            None
        }
    }
}

/// The name of the class entry at `index`.
pub open spec fn spec_class_name(pool: Seq<CpInfoModel>, index: int) -> Option<Seq<char>> {
    match cp_entry_at(pool, index) {
        Some(CpInfoModel::ClassInfo { name_index }) => cp_text(pool, name_index as int),
        _ => None,
    }
}

/// Name and descriptor of the name-and-type entry at `index`.
pub open spec fn spec_name_and_type(pool: Seq<CpInfoModel>, index: int) -> Option<(Seq<char>, Seq<char>)> {
    match cp_entry_at(pool, index) {
        Some(CpInfoModel::NameAndTypeInfo { name_index, descriptor_index }) => match (
            cp_text(pool, name_index as int),
            cp_text(pool, descriptor_index as int),
        ) {
            (Some(n), Some(d)) => Some((n, d)),
            _ => None,
        },
        _ => None,
    }
}

/// Class name, member name and descriptor of a member reference.
pub open spec fn spec_member_ref(pool: Seq<CpInfoModel>, class_index: u16, name_and_type_index: u16) -> Option<(Seq<char>, Seq<char>, Seq<char>)> {
    match (
        spec_class_name(pool, class_index as int),
        spec_name_and_type(pool, name_and_type_index as int),
    ) {
        (Some(c), Some((n, d))) => Some((c, n, d)),
        _ => None,
    }
}

/// The run-time form of the constant pool entry `e` of `pool`; `None` where a reference does
/// not resolve, and for method handles and invoke-dynamic entries, which are not supported.
pub open spec fn spec_runtime_entry(pool: Seq<CpInfoModel>, e: CpInfoModel) -> Option<RuntimeCPEntryModel> {
    match e {
        CpInfoModel::ClassInfo { name_index } => match cp_text(pool, name_index as int) {
            Some(name) => Some(RuntimeCPEntryModel::Class { name }),
            None => None,
        },
        CpInfoModel::FieldRefInfo { class_index, name_and_type_index } => match spec_member_ref(
            pool,
            class_index,
            name_and_type_index,
        ) {
            Some((class, name, descriptor)) => Some(
                RuntimeCPEntryModel::FieldRefInfo { class, name, descriptor },
            ),
            None => None,
        },
        CpInfoModel::MethodRefInfo { class_index, name_and_type_index } => match spec_member_ref(
            pool,
            class_index,
            name_and_type_index,
        ) {
            Some((class, name, descriptor)) => Some(
                RuntimeCPEntryModel::MethodRefInfo { class, name, descriptor },
            ),
            None => None,
        },
        CpInfoModel::InterfaceMethodRefInfo {
            class_index,
            name_and_type_index,
        } => match spec_member_ref(pool, class_index, name_and_type_index) {
            Some((class, name, descriptor)) => Some(
                RuntimeCPEntryModel::InterfaceRefInfo { class, name, descriptor },
            ),
            None => None,
        },
        CpInfoModel::StringInfo { string_index } => match cp_text(pool, string_index as int) {
            Some(s) => Some(RuntimeCPEntryModel::StringInfo(s)),
            None => None,
        },
        CpInfoModel::IntegerInfo(v) => Some(RuntimeCPEntryModel::IntegerInfo(v)),
        CpInfoModel::FloatInfo(v) => Some(RuntimeCPEntryModel::FloatInfo(v)),
        CpInfoModel::LongInfo(v) => Some(RuntimeCPEntryModel::LongInfo(v)),
        CpInfoModel::DoubleInfo(v) => Some(RuntimeCPEntryModel::DoubleInfo(v)),
        CpInfoModel::Reserved => Some(RuntimeCPEntryModel::Resolved),
        CpInfoModel::NameAndTypeInfo { .. } => Some(RuntimeCPEntryModel::Resolved),
        CpInfoModel::UTF8INFO(_) => Some(RuntimeCPEntryModel::Resolved),
        CpInfoModel::MethodHandleInfo { .. } => None,
        CpInfoModel::MethodTypeInfo { descriptor_index } => match cp_text(
            pool,
            descriptor_index as int,
        ) {
            Some(descriptor) => Some(RuntimeCPEntryModel::MethodTypeInfo { descriptor }),
            None => None,
        },
        CpInfoModel::InvokeDynamicInfo { .. } => None,
    }
}

/// The run-time forms of the first `n` entries of `pool`.
pub open spec fn spec_runtime_prefix(pool: Seq<CpInfoModel>, n: int) -> Option<Seq<RuntimeCPEntryModel>>
    decreases n,
{
    if n <= 0 {
        Some(Seq::empty())
    } else {
        match (spec_runtime_prefix(pool, n - 1), spec_runtime_entry(pool, pool[n - 1])) {
            (Some(done), Some(e)) => Some(done.push(e)),
            _ => None,
        }
    }
}

/// The run-time constant pool of `pool`; `None` when some entry cannot be resolved.
pub open spec fn spec_runtime_pool(pool: Seq<CpInfoModel>) -> Option<Seq<RuntimeCPEntryModel>> {
    spec_runtime_prefix(pool, pool.len() as int)
}

fn text_at(pool: &Vec<CpInfo>, index: u16) -> (r: Option<String>)
    ensures
        r is Some <==> cp_text(cp_view(pool@), index as int) is Some,
        r matches Some(s) ==> cp_text(cp_view(pool@), index as int) == Some(s@),
{
    if index >= 1 && ((index - 1) as usize) < pool.len() {
        match pool[(index - 1) as usize].as_utf8_info() {
            Some(s) => Some(s.to_owned()),
            None => None,
        }
    } else {
        None
    }
}

fn decode_class_info(pool: &Vec<CpInfo>, index: u16) -> (r: Option<String>)
    ensures
        r is Some <==> spec_class_name(cp_view(pool@), index as int) is Some,
        r matches Some(s) ==> spec_class_name(cp_view(pool@), index as int) == Some(s@),
{
    if index >= 1 && ((index - 1) as usize) < pool.len() {
        match pool[(index - 1) as usize].as_class_info() {
            Some(name_index) => text_at(pool, name_index),
            None => None,
        }
    } else {
        None
    }
}

fn decode_name_and_type_info(pool: &Vec<CpInfo>, index: u16) -> (r: Option<(String, String)>)
    ensures
        r is Some <==> spec_name_and_type(cp_view(pool@), index as int) is Some,
        r matches Some((n, d)) ==> spec_name_and_type(cp_view(pool@), index as int) == Some(
            (n@, d@),
        ),
{
    if index >= 1 && ((index - 1) as usize) < pool.len() {
        match pool[(index - 1) as usize].as_name_and_type_info() {
            Some((name_index, descriptor_index)) => match (
                text_at(pool, name_index),
                text_at(pool, descriptor_index),
            ) {
                (Some(n), Some(d)) => Some((n, d)),
                _ => None,
            },
            None => None,
        }
    } else {
        None
    }
}

fn decode_member_ref(pool: &Vec<CpInfo>, class_index: u16, name_and_type_index: u16) -> (r: Option<(String, String, String)>)
    ensures
        r is Some <==> spec_member_ref(cp_view(pool@), class_index, name_and_type_index) is Some,
        r matches Some((c, n, d)) ==> spec_member_ref(
            cp_view(pool@),
            class_index,
            name_and_type_index,
        ) == Some((c@, n@, d@)),
{
    match (decode_class_info(pool, class_index), decode_name_and_type_info(pool, name_and_type_index)) {
        (Some(c), Some((n, d))) => Some((c, n, d)),
        _ => None,
    }
}

fn decode_entry(pool: &Vec<CpInfo>, entry: &CpInfo) -> (r: Option<RuntimeCPEntry>)
    ensures
        r is Some <==> spec_runtime_entry(cp_view(pool@), entry@) is Some,
        r matches Some(e) ==> spec_runtime_entry(cp_view(pool@), entry@) == Some(e@),
{
    match entry {
        CpInfo::ClassInfo { name_index } => match text_at(pool, *name_index) {
            Some(name) => Some(RuntimeCPEntry::Class { name }),
            None => None,
        },
        CpInfo::FieldRefInfo { class_index, name_and_type_index } => match decode_member_ref(
            pool,
            *class_index,
            *name_and_type_index,
        ) {
            Some((class, name, descriptor)) => Some(
                RuntimeCPEntry::FieldRefInfo { class, name, descriptor },
            ),
            None => None,
        },
        CpInfo::MethodRefInfo { class_index, name_and_type_index } => match decode_member_ref(
            pool,
            *class_index,
            *name_and_type_index,
        ) {
            Some((class, name, descriptor)) => Some(
                RuntimeCPEntry::MethodRefInfo { class, name, descriptor },
            ),
            None => None,
        },
        CpInfo::InterfaceMethodRefInfo { class_index, name_and_type_index } =>
            match decode_member_ref(pool, *class_index, *name_and_type_index) {
            Some((class, name, descriptor)) => Some(
                RuntimeCPEntry::InterfaceRefInfo { class, name, descriptor },
            ),
            None => None,
        },
        CpInfo::StringInfo { string_index } => match text_at(pool, *string_index) {
            Some(s) => Some(RuntimeCPEntry::StringInfo(s)),
            None => None,
        },
        CpInfo::IntegerInfo(v) => Some(RuntimeCPEntry::IntegerInfo(*v)),
        CpInfo::FloatInfo(v) => Some(RuntimeCPEntry::FloatInfo(*v)),
        CpInfo::LongInfo(v) => Some(RuntimeCPEntry::LongInfo(*v)),
        CpInfo::DoubleInfo(v) => Some(RuntimeCPEntry::DoubleInfo(*v)),
        CpInfo::Reserved => Some(RuntimeCPEntry::Resolved),
        CpInfo::NameAndTypeInfo { .. } => Some(RuntimeCPEntry::Resolved),
        CpInfo::UTF8INFO(_) => Some(RuntimeCPEntry::Resolved),
        CpInfo::MethodHandleInfo { .. } => None,
        CpInfo::MethodTypeInfo { descriptor_index } => match text_at(pool, *descriptor_index) {
            Some(descriptor) => Some(RuntimeCPEntry::MethodTypeInfo { descriptor }),
            None => None,
        },
        CpInfo::InvokeDynamicInfo { .. } => None,
    }
}

proof fn lemma_runtime_prefix_fails(pool: Seq<CpInfoModel>, i: int)
    requires
        0 <= i <= pool.len(),
        spec_runtime_prefix(pool, i) is None,
    ensures
        spec_runtime_pool(pool) is None,
    decreases pool.len() - i,
{
    if i < pool.len() {
        lemma_runtime_prefix_fails(pool, i + 1);
    }
}

/// Resolves the constant pool of a class file; `None` when some entry cannot be resolved.
pub fn try_decode_constant_pool(class_file: &ClassFile) -> (r: Option<Vec<RuntimeCPEntry>>)
    ensures
        r is Some <==> spec_runtime_pool(class_file@.constant_pool) is Some,
        r matches Some(v) ==> spec_runtime_pool(class_file@.constant_pool) == Some(
            runtime_cp_view(v@),
        ),
{
    let pool = &class_file.constant_pool;
    let ghost pv = cp_view(pool@);
    let mut v: Vec<RuntimeCPEntry> = Vec::new();
    let mut i: usize = 0;
    assert(runtime_cp_view(v@) =~= Seq::<RuntimeCPEntryModel>::empty());
    while i < pool.len()
        invariant
            i <= pool.len(),
            pv == cp_view(pool@),
            pv == class_file@.constant_pool,
            spec_runtime_prefix(pv, i as int) == Some(runtime_cp_view(v@)),
        decreases pool.len() - i,
    {
        match decode_entry(pool, &pool[i]) {
            Some(e) => {
                let ghost old_v = runtime_cp_view(v@);
                v.push(e);
                assert(runtime_cp_view(v@) =~= old_v.push(e@));
            },
            None => {
                proof {
                    lemma_runtime_prefix_fails(pv, i as int + 1);
                }
                return None;
            },
        }
        i = i + 1;
    }
    Some(v)
}

/// Resolves the constant pool of a class file whose entries all resolve.
pub fn decode_constant_pool(class_file: &ClassFile) -> (r: Vec<RuntimeCPEntry>)
    requires
        spec_runtime_pool(class_file@.constant_pool) is Some,
    ensures
        spec_runtime_pool(class_file@.constant_pool) == Some(runtime_cp_view(r@)),
{
    match try_decode_constant_pool(class_file) {
        Some(v) => v,
        None => Vec::new(),
    }
}

} // verus!
