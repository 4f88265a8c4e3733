//! Building the run-time description of a class (methods, fields, identifier) from a
//! class file whose attributes are decoded.
use vstd::prelude::*;

use crate::access_flags::{contains_flag, has_flag, FIELD_STATIC, METHOD_STATIC};
use crate::class::members::{
    default_value, descriptor_kind, exception_tables_view, field_descriptors_view, fields_view,
    ExceptionTableModel,
};
use crate::class::{
    parse_class_identifier, spec_class_identifier, BytecodeClass, ClassIdentifier,
    ClassIdentifierModel, Code, ExceptionTable, Field, FieldDescriptor, FieldKind, FieldValue,
    Method, MethodCode,
};
use crate::classloader::attribute_parser::{
    AttributeInfoModel, ClassFile, CodeAttributeModel, ExceptionTableEntry, MemberModel, cp_text,
};
use crate::classloader::constant_pool::{CpInfoModel};
use crate::classloader::cp_decoder::{
    runtime_cp_view, spec_runtime_pool, try_decode_constant_pool, RuntimeCPEntry,
    RuntimeCPEntryModel, remove_cp_offset,
};
use crate::classloader::opcode_parser::{
    byte_position, code_decodes, decoded_instruction, layout_from, parse_opcodes, sizes_positive,
    lemma_byte_position_monotone,
};
use crate::classloader::raw::cp_entry_at;
use crate::classloader::signature_parser::{
    descriptor_accepted, descriptor_meaning, try_parse_method_arguments,
};
use crate::executor::op_code::OpCode;

verus! {

/// Why a class could not be built from its class file.
#[derive(Debug, PartialEq, Eq, Structural)]
pub enum ClassCreationError {
    /// A name or descriptor index does not point to a text constant.
    MissingText,
    /// A method descriptor is malformed.
    InvalidDescriptor,
    /// The bytecode of a method does not decode.
    InvalidCode,
    /// The catch type of an exception handler does not name a class.
    InvalidCatchType,
    /// Some constant pool entry cannot be resolved.
    InvalidConstantPool,
    /// `this_class` does not name a class.
    InvalidThisClass,
}

// ---------------------------------------------------------------------------------------------
// Exception handlers

/// The index of the instruction that starts at byte `pc`, or 0 when none does.
pub open spec fn instruction_at_byte(sizes: Seq<u8>, pc: int) -> int {
    if exists|k: int| 0 <= k < sizes.len() && #[trigger] byte_position(sizes, k) == pc {
        choose|k: int| 0 <= k < sizes.len() && #[trigger] byte_position(sizes, k) == pc
    } else {
        0
    }
}

/// What a catch type index denotes: `Some(None)` for "any exception" (index 0),
/// `Some(Some(class))` for a class entry, `None` when it denotes no class.
pub open spec fn spec_catch_type(pool: Seq<CpInfoModel>, catch_type: u16) -> Option<
    Option<ClassIdentifierModel>,
> {
    if catch_type == 0 {
        Some(None)
    } else {
        match cp_entry_at(pool, catch_type as int) {
            Some(CpInfoModel::ClassInfo { name_index }) => match cp_text(pool, name_index as int) {
                Some(name) => match spec_class_identifier(name) {
                    Some(id) => Some(Some(id)),
                    None => None,
                },
                None => None,
            },
            _ => None,
        }
    }
}

/// An exception handler with its byte positions turned into instruction indices.
pub open spec fn spec_exception_entry(
    pool: Seq<CpInfoModel>,
    sizes: Seq<u8>,
    e: ExceptionTableEntry,
) -> Option<ExceptionTableModel> {
    match spec_catch_type(pool, e.catch_type) {
        Some(catch_type) => Some(
            ExceptionTableModel {
                start: instruction_at_byte(sizes, e.start_pc as int) as usize,
                end: instruction_at_byte(sizes, e.end_pc as int) as usize,
                handler_position: instruction_at_byte(sizes, e.handler_pc as int) as usize,
                catch_type,
            },
        ),
        None => None,
    }
}

/// A list of exception handlers, converted one by one; `None` when one catch type fails.
pub open spec fn spec_exception_entries(
    pool: Seq<CpInfoModel>,
    sizes: Seq<u8>,
    es: Seq<ExceptionTableEntry>,
) -> Option<Seq<ExceptionTableModel>>
    decreases es.len(),
{
    if es.len() == 0 {
        Some(Seq::empty())
    } else {
        match (
            spec_exception_entries(pool, sizes, es.drop_last()),
            spec_exception_entry(pool, sizes, es.last()),
        ) {
            (Some(done), Some(e)) => Some(done.push(e)),
            _ => None,
        }
    }
}

/// The instruction lengths of a code attribute's bytecode.
pub open spec fn code_layout(c: CodeAttributeModel) -> Seq<u8> {
    layout_from(c.code, 0)->0
}

/// Whether a code attribute can be turned into run-time code.
pub open spec fn code_attribute_loads(
    pool: Seq<CpInfoModel>,
    cp: Seq<RuntimeCPEntryModel>,
    c: CodeAttributeModel,
) -> bool {
    &&& code_decodes(c.code, cp)
    &&& spec_exception_entries(pool, code_layout(c), c.exception_table) is Some
}

/// The code attributes among a list of attributes, in order.
pub open spec fn code_attributes(attrs: Seq<AttributeInfoModel>) -> Seq<CodeAttributeModel>
    decreases attrs.len(),
{
    if attrs.len() == 0 {
        Seq::empty()
    } else {
        let done = code_attributes(attrs.drop_last());
        match attrs.last() {
            AttributeInfoModel::Code(c) => done.push(c),
            _ => done,
        }
    }
}

/// The exception handlers of all the given code attributes, one after the other.
pub open spec fn all_handlers(pool: Seq<CpInfoModel>, codes: Seq<CodeAttributeModel>) -> Seq<
    ExceptionTableModel,
>
    decreases codes.len(),
{
    if codes.len() == 0 {
        Seq::empty()
    } else {
        all_handlers(pool, codes.drop_last()) + spec_exception_entries(
            pool,
            code_layout(codes.last()),
            codes.last().exception_table,
        )->0
    }
}

// ---------------------------------------------------------------------------------------------
// Methods

/// Whether a method entry can be turned into a run-time method.
pub open spec fn method_loads(
    pool: Seq<CpInfoModel>,
    cp: Seq<RuntimeCPEntryModel>,
    m: MemberModel,
) -> bool {
    &&& cp_text(pool, m.name_index as int) is Some
    &&& forall|i: int|
        0 <= i < code_attributes(m.attributes).len() ==> code_attribute_loads(
            pool,
            cp,
            #[trigger] code_attributes(m.attributes)[i],
        )
    &&& cp_text(pool, m.descriptor_index as int) is Some
    &&& descriptor_accepted(cp_text(pool, m.descriptor_index as int)->0)
}

/// Whether `code` is the run-time code of a method with the given attributes: that of its
/// last code attribute (nothing when it has none), with the exception handlers of all of
/// them.
pub open spec fn code_built(
    pool: Seq<CpInfoModel>,
    cp: Seq<RuntimeCPEntryModel>,
    attrs: Seq<AttributeInfoModel>,
    code: Code,
) -> bool {
    let codes = code_attributes(attrs);
    &&& exception_tables_view(code.exception_table@) == all_handlers(pool, codes)
    &&& if codes.len() == 0 {
        &&& code.stack_depth == 0
        &&& code.local_variable_count == 0
        &&& code.byte_code@.len() == 0
    } else {
        let last = codes.last();
        &&& code.stack_depth == last.max_stack
        &&& code.local_variable_count == last.max_locals
        &&& code.byte_code@.len() == code_layout(last).len()
        &&& forall|k: int|
            0 <= k < code.byte_code@.len() ==> #[trigger] decoded_instruction(
                last.code,
                code_layout(last),
                k,
                cp,
                code.byte_code@[k],
            )
    }
}

/// Whether `r` is the run-time method built from the method entry `m`.
pub open spec fn method_built(
    pool: Seq<CpInfoModel>,
    cp: Seq<RuntimeCPEntryModel>,
    m: MemberModel,
    r: Method,
) -> bool {
    let descriptor = cp_text(pool, m.descriptor_index as int)->0;
    &&& r.name@ == cp_text(pool, m.name_index as int)->0
    &&& r.parameters_view() == descriptor_meaning(descriptor).0
    &&& r.return_view() == descriptor_meaning(descriptor).1
    &&& r.is_static == has_flag(m.access_flags, METHOD_STATIC)
    &&& match r.code {
        MethodCode::Bytecode(code) => code_built(pool, cp, m.attributes, *code),
        MethodCode::Native(_) => false,
    }
}

/// The text constant at `index` of the class file's constant pool.
fn cp_utf8(class_file: &ClassFile, index: u16) -> (r: Option<&str>)
    ensures
        r is Some <==> cp_text(class_file@.constant_pool, index as int) is Some,
        r matches Some(s) ==> cp_text(class_file@.constant_pool, index as int) == Some(s@),
{
    if index == 0 {
        return None;
    }
    match class_file.get_java_cp_entry(index as usize) {
        Some(e) => e.as_utf8_info(),
        None => None,
    }
}

/// The index of the instruction that starts at byte `pc` (0 when none does).
fn instruction_index(sizes: &Vec<u8>, pc: u16) -> (r: usize)
    requires
        sizes_positive(sizes@),
    ensures
        r == instruction_at_byte(sizes@, pc as int),
{
    let mut found: usize = 0;
    let mut bytes_count: u64 = 0;
    let mut i: usize = 0;
    let ghost mut hit: bool = false;
    while i < sizes.len()
        invariant
            sizes_positive(sizes@),
            i <= sizes@.len(),
            bytes_count == byte_position(sizes@, i as int),
            bytes_count <= pc + 256,
            hit ==> found < sizes@.len() && byte_position(sizes@, found as int) == pc,
            !hit ==> found == 0 && forall|k: int|
                0 <= k < i ==> #[trigger] byte_position(sizes@, k) != pc,
        ensures
            i == sizes@.len() || bytes_count > pc,
        decreases sizes@.len() - i,
    {
        if bytes_count > pc as u64 {
            break;
        }
        if bytes_count == pc as u64 {
            found = i;
            proof {
                hit = true;
            }
        }
        bytes_count = bytes_count + sizes[i] as u64;
        i = i + 1;
    }
    proof {
        if hit {
            assert forall|k: int|
                0 <= k < sizes@.len() && #[trigger] byte_position(sizes@, k) == pc implies k
                == found by {
                if k < found {
                    lemma_byte_position_monotone(sizes@, k, found as int);
                } else if k > found {
                    lemma_byte_position_monotone(sizes@, found as int, k);
                }
            }
        } else {
            assert forall|k: int| 0 <= k < sizes@.len() implies #[trigger] byte_position(sizes@, k)
                != pc by {
                if k >= i {
                    lemma_byte_position_monotone(sizes@, i as int, k);
                }
            }
        }
    }
    found
}

/// What the catch type index of an exception handler denotes.
fn catch_type_of(class_file: &ClassFile, catch_type: u16) -> (r: Option<Option<ClassIdentifier>>)
    ensures
        r is Some <==> spec_catch_type(class_file@.constant_pool, catch_type) is Some,
        r matches Some(c) ==> spec_catch_type(class_file@.constant_pool, catch_type) == Some(
            match c {
                Some(id) => Some(id@),
                None => None::<ClassIdentifierModel>,
            },
        ),
{
    if catch_type == 0 {
        return Some(None);
    }
    let name_index = match class_file.get_java_cp_entry(catch_type as usize) {
        Some(e) => match e.as_class_info() {
            Some(n) => n,
            None => return None,
        },
        None => return None,
    };
    let name = match cp_utf8(class_file, name_index) {
        Some(s) => s,
        None => return None,
    };
    match parse_class_identifier(name) {
        Some(id) => Some(Some(id)),
        None => None,
    }
}

/// Appends the exception handlers of one code attribute, with instruction indices.
fn add_handlers(
    class_file: &ClassFile,
    sizes: &Vec<u8>,
    table: &Vec<ExceptionTableEntry>,
    acc: &mut Vec<ExceptionTable>,
) -> (r: bool)
    requires
        sizes_positive(sizes@),
    ensures
        r == spec_exception_entries(class_file@.constant_pool, sizes@, table@) is Some,
        r ==> exception_tables_view(final(acc)@) == exception_tables_view(old(acc)@)
            + spec_exception_entries(class_file@.constant_pool, sizes@, table@)->0,
{
    let ghost pool = class_file@.constant_pool;
    let ghost start = exception_tables_view(acc@);
    let mut j: usize = 0;
    while j < table.len()
        invariant
            sizes_positive(sizes@),
            pool == class_file@.constant_pool,
            j <= table@.len(),
            spec_exception_entries(pool, sizes@, table@.take(j as int)) is Some,
            exception_tables_view(acc@) == start + spec_exception_entries(
                pool,
                sizes@,
                table@.take(j as int),
            )->0,
        decreases table@.len() - j,
    {
        let e = table[j];
        assert(table@.take(j + 1).drop_last() =~= table@.take(j as int));
        let catch_type = match catch_type_of(class_file, e.catch_type) {
            Some(c) => c,
            None => {
                proof {
                    lemma_entries_fail(pool, sizes@, table@, j as int + 1);
                    assert(table@.take(table@.len() as int) =~= table@);
                }
                return false;
            },
        };
        let start_pc = instruction_index(sizes, e.start_pc);
        let end_pc = instruction_index(sizes, e.end_pc);
        let handler_pc = instruction_index(sizes, e.handler_pc);
        let ghost before = exception_tables_view(acc@);
        let entry = ExceptionTable {
            active: core::ops::Range { start: start_pc, end: end_pc },
            handler_position: handler_pc,
            catch_type,
        };
        acc.push(entry);
        assert(exception_tables_view(acc@) =~= before.push(entry@));
        j = j + 1;
    }
    assert(table@.take(table@.len() as int) =~= table@);
    true
}

/// Once the handlers up to `n` fail to convert, the whole list fails.
proof fn lemma_entries_fail(
    pool: Seq<CpInfoModel>,
    sizes: Seq<u8>,
    es: Seq<ExceptionTableEntry>,
    n: int,
)
    requires
        0 < n <= es.len(),
        spec_exception_entries(pool, sizes, es.take(n)) is None,
    ensures
        spec_exception_entries(pool, sizes, es.take(es.len() as int)) is None,
    decreases es.len() - n,
{
    if n < es.len() {
        assert(es.take(n + 1).drop_last() =~= es.take(n));
        lemma_entries_fail(pool, sizes, es, n + 1);
    }
}

/// Builds the run-time method of a method entry: its name, parameter and return kinds,
/// whether it is static, and its decoded bytecode with exception handlers.
pub fn create_bytecode_method(
    method: &crate::classloader::attribute_parser::MethodInfo,
    class_file: &ClassFile,
    runtime_cp: &Vec<RuntimeCPEntry>,
) -> (r: Result<Method, ClassCreationError>)
    ensures
        r is Ok <==> method_loads(class_file@.constant_pool, runtime_cp_view(runtime_cp@), method@),
        r matches Ok(m) ==> method_built(
            class_file@.constant_pool,
            runtime_cp_view(runtime_cp@),
            method@,
            m,
        ),
{
    let ghost pool = class_file@.constant_pool;
    let ghost cpv = runtime_cp_view(runtime_cp@);
    let ghost attrs = method@.attributes;
    let name = match cp_utf8(class_file, method.name_index) {
        Some(n) => n,
        None => return Err(ClassCreationError::MissingText),
    };
    let mut byte_code: Vec<OpCode> = Vec::new();
    let mut stack_depth: u16 = 0;
    let mut local_variable_count: u16 = 0;
    let mut exception_table: Vec<ExceptionTable> = Vec::new();
    let mut a: usize = 0;
    assert(attrs.take(0) =~= Seq::<AttributeInfoModel>::empty());
    assert(exception_tables_view(exception_table@) =~= Seq::<ExceptionTableModel>::empty());
    while a < method.attributes.len()
        invariant
            pool == class_file@.constant_pool,
            cpv == runtime_cp_view(runtime_cp@),
            attrs == method@.attributes,
            attrs.len() == method.attributes@.len(),
            a <= attrs.len(),
            forall|i: int|
                0 <= i < code_attributes(attrs.take(a as int)).len() ==> code_attribute_loads(
                    pool,
                    cpv,
                    #[trigger] code_attributes(attrs.take(a as int))[i],
                ),
            code_built(
                pool,
                cpv,
                attrs.take(a as int),
                Code {
                    stack_depth: stack_depth as usize,
                    local_variable_count: local_variable_count as usize,
                    exception_table,
                    byte_code,
                },
            ),
        decreases attrs.len() - a,
    {
        assert(attrs.take(a + 1).drop_last() =~= attrs.take(a as int));
        assert(method.attributes@[a as int]@ == attrs[a as int]);
        if let Some(code_attribute) = method.attributes[a].as_code_attribute() {
            let ghost c = code_attribute@;
            let ghost before = code_attributes(attrs.take(a as int));
            assert(code_attributes(attrs.take(a + 1)) == before.push(c));
            let (ops, sizes) = match parse_opcodes(&code_attribute.code, runtime_cp) {
                Ok(p) => p,
                Err(_) => {
                    proof {
                        lemma_code_attribute_kept(attrs, a as int + 1, before.len() as int);
                    }
                    return Err(ClassCreationError::InvalidCode);
                },
            };
            proof {
                crate::classloader::opcode_parser::lemma_layout_positive(c.code, 0);
            }
            let ghost old_table = exception_tables_view(exception_table@);
            if !add_handlers(class_file, &sizes, &code_attribute.exception_table, &mut exception_table) {
                proof {
                    lemma_code_attribute_kept(attrs, a as int + 1, before.len() as int);
                }
                return Err(ClassCreationError::InvalidCatchType);
            }
            stack_depth = code_attribute.max_stack;
            local_variable_count = code_attribute.max_locals;
            byte_code = ops;
            proof {
                assert(all_handlers(pool, before.push(c)) =~= all_handlers(pool, before)
                    + spec_exception_entries(pool, code_layout(c), c.exception_table)->0) by {
                    assert(before.push(c).drop_last() =~= before);
                }
                assert forall|i: int|
                    0 <= i < code_attributes(attrs.take(a + 1)).len() implies code_attribute_loads(
                    pool,
                    cpv,
                    #[trigger] code_attributes(attrs.take(a + 1))[i],
                ) by {
                    if i < before.len() {
                        assert(code_attributes(attrs.take(a + 1))[i] == before[i]);
                    }
                }
            }
        } else {
            assert(code_attributes(attrs.take(a + 1)) == code_attributes(attrs.take(a as int)));
        }
        a = a + 1;
    }
    assert(attrs.take(attrs.len() as int) =~= attrs);
    let descriptor = match cp_utf8(class_file, method.descriptor_index) {
        Some(d) => d,
        None => return Err(ClassCreationError::MissingText),
    };
    let (parameters, return_type) = match try_parse_method_arguments(descriptor) {
        Some(p) => p,
        None => return Err(ClassCreationError::InvalidDescriptor),
    };
    let is_static = contains_flag(method.access_flags, METHOD_STATIC);
    Ok(
        Method {
            code: MethodCode::Bytecode(
                std::rc::Rc::new(
                    Code {
                        stack_depth: stack_depth as usize,
                        local_variable_count: local_variable_count as usize,
                        exception_table,
                        byte_code,
                    },
                ),
            ),
            name: name.to_string(),
            parameters,
            return_type,
            is_static,
        },
    )
}

/// A code attribute found among the first `n` attributes stays among all of them.
proof fn lemma_code_attribute_kept(attrs: Seq<AttributeInfoModel>, n: int, k: int)
    requires
        0 <= n <= attrs.len(),
        0 <= k < code_attributes(attrs.take(n)).len(),
    ensures
        k < code_attributes(attrs).len(),
        code_attributes(attrs)[k] == code_attributes(attrs.take(n))[k],
    decreases attrs.len() - n,
{
    if n < attrs.len() {
        assert(attrs.take(n + 1).drop_last() =~= attrs.take(n));
        lemma_code_attribute_kept(attrs, n + 1, k);
    } else {
        assert(attrs.take(n) =~= attrs);
    }
}


/// The run-time methods of all method entries, in order; fails as the first failing
/// entry does.
pub fn create_bytecode_methods(class_file: &ClassFile, runtime_cp: &Vec<RuntimeCPEntry>) -> (r:
    Result<Vec<Method>, ClassCreationError>)
    ensures
        r is Ok <==> forall|i: int|
            0 <= i < class_file@.methods.len() ==> method_loads(
                class_file@.constant_pool,
                runtime_cp_view(runtime_cp@),
                #[trigger] class_file@.methods[i],
            ),
        r matches Ok(ms) ==> ms@.len() == class_file@.methods.len() && forall|i: int|
            0 <= i < ms@.len() ==> method_built(
                class_file@.constant_pool,
                runtime_cp_view(runtime_cp@),
                class_file@.methods[i],
                #[trigger] ms@[i],
            ),
{
    let mut methods: Vec<Method> = Vec::new();
    let mut i: usize = 0;
    while i < class_file.methods.len()
        invariant
            i <= class_file.methods@.len(),
            class_file@.methods.len() == class_file.methods@.len(),
            methods@.len() == i,
            forall|k: int|
                0 <= k < i ==> method_loads(
                    class_file@.constant_pool,
                    runtime_cp_view(runtime_cp@),
                    #[trigger] class_file@.methods[k],
                ),
            forall|k: int|
                0 <= k < i ==> method_built(
                    class_file@.constant_pool,
                    runtime_cp_view(runtime_cp@),
                    class_file@.methods[k],
                    #[trigger] methods@[k],
                ),
        decreases class_file.methods@.len() - i,
    {
        assert(class_file@.methods[i as int] == class_file.methods@[i as int]@);
        match create_bytecode_method(&class_file.methods[i], class_file, runtime_cp) {
            Ok(m) => methods.push(m),
            Err(e) => return Err(e),
        }
        i = i + 1;
    }
    Ok(methods)
}

// ---------------------------------------------------------------------------------------------
// Fields

/// Whether a field entry's name and descriptor are text constants.
pub open spec fn field_loads(pool: Seq<CpInfoModel>, f: MemberModel) -> bool {
    &&& cp_text(pool, f.name_index as int) is Some
    &&& cp_text(pool, f.descriptor_index as int) is Some
}

/// The static fields among `fs`, each with its name and the default value of its type.
pub open spec fn static_fields_of(pool: Seq<CpInfoModel>, fs: Seq<MemberModel>) -> Seq<
    (Seq<char>, FieldValue),
>
    decreases fs.len(),
{
    if fs.len() == 0 {
        Seq::empty()
    } else {
        let done = static_fields_of(pool, fs.drop_last());
        let f = fs.last();
        if has_flag(f.access_flags, FIELD_STATIC) {
            done.push(
                (
                    cp_text(pool, f.name_index as int)->0,
                    default_value(descriptor_kind(cp_text(pool, f.descriptor_index as int)->0)),
                ),
            )
        } else {
            done
        }
    }
}

/// The instance fields among `fs`, each with its name and kind.
pub open spec fn instance_fields_of(pool: Seq<CpInfoModel>, fs: Seq<MemberModel>) -> Seq<
    (Seq<char>, FieldKind),
>
    decreases fs.len(),
{
    if fs.len() == 0 {
        Seq::empty()
    } else {
        let done = instance_fields_of(pool, fs.drop_last());
        let f = fs.last();
        if has_flag(f.access_flags, FIELD_STATIC) {
            done
        } else {
            done.push(
                (
                    cp_text(pool, f.name_index as int)->0,
                    descriptor_kind(cp_text(pool, f.descriptor_index as int)->0),
                ),
            )
        }
    }
}

/// The kind of a field with the given type descriptor.
pub fn field_kind_of(descriptor: &str) -> (r: FieldKind)
    ensures
        r == descriptor_kind(descriptor@),
{
    if descriptor.unicode_len() != 1 {
        return FieldKind::Reference;
    }
    let c = descriptor.get_char(0);
    proof {
        assert(descriptor@ =~= seq![c]);
    }
    if c == 'B' {
        FieldKind::Byte
    } else if c == 'C' {
        FieldKind::Char
    } else if c == 'D' {
        FieldKind::Double
    } else if c == 'F' {
        FieldKind::Float
    } else if c == 'I' {
        FieldKind::Int
    } else if c == 'J' {
        FieldKind::Long
    } else if c == 'S' {
        FieldKind::Short
    } else if c == 'Z' {
        FieldKind::Boolean
    } else {
        FieldKind::Reference
    }
}

/// Splits the fields of a class file into static fields, which get their default values,
/// and instance fields, which are described by name and kind.
pub fn create_bytecode_fields(class_file: &ClassFile) -> (r: Result<
    (Vec<Field>, Vec<FieldDescriptor>),
    ClassCreationError,
>)
    ensures
        r is Ok <==> forall|i: int|
            0 <= i < class_file@.fields.len() ==> field_loads(
                class_file@.constant_pool,
                #[trigger] class_file@.fields[i],
            ),
        r matches Ok((statics, instances)) ==> {
            &&& fields_view(statics@) == static_fields_of(
                class_file@.constant_pool,
                class_file@.fields,
            )
            &&& field_descriptors_view(instances@) == instance_fields_of(
                class_file@.constant_pool,
                class_file@.fields,
            )
        },
{
    let ghost pool = class_file@.constant_pool;
    let ghost fs = class_file@.fields;
    let mut static_fields: Vec<Field> = Vec::new();
    let mut instance_fields: Vec<FieldDescriptor> = Vec::new();
    let mut i: usize = 0;
    assert(fs.take(0) =~= Seq::<MemberModel>::empty());
    assert(fields_view(static_fields@) =~= Seq::<(Seq<char>, FieldValue)>::empty());
    assert(field_descriptors_view(instance_fields@) =~= Seq::<(Seq<char>, FieldKind)>::empty());
    while i < class_file.fields.len()
        invariant
            pool == class_file@.constant_pool,
            fs == class_file@.fields,
            fs.len() == class_file.fields@.len(),
            i <= fs.len(),
            forall|k: int| 0 <= k < i ==> field_loads(pool, #[trigger] fs[k]),
            fields_view(static_fields@) == static_fields_of(pool, fs.take(i as int)),
            field_descriptors_view(instance_fields@) == instance_fields_of(pool, fs.take(i as int)),
        decreases fs.len() - i,
    {
        let field_info = &class_file.fields[i];
        assert(fs[i as int] == field_info@);
        assert(fs.take(i + 1).drop_last() =~= fs.take(i as int));
        let name = match cp_utf8(class_file, field_info.name_index) {
            Some(n) => n,
            None => return Err(ClassCreationError::MissingText),
        };
        let descriptor = match cp_utf8(class_file, field_info.descriptor_index) {
            Some(d) => d,
            None => return Err(ClassCreationError::MissingText),
        };
        let kind = field_kind_of(descriptor);
        if contains_flag(field_info.access_flags, FIELD_STATIC) {
            let ghost before = fields_view(static_fields@);
            let field = Field { name: name.to_string(), value: FieldValue::default_for(kind) };
            static_fields.push(field);
            assert(fields_view(static_fields@) =~= before.push(field@));
        } else {
            let ghost before = field_descriptors_view(instance_fields@);
            let field = FieldDescriptor { name: name.to_string(), kind };
            instance_fields.push(field);
            assert(field_descriptors_view(instance_fields@) =~= before.push(field@));
        }
        i = i + 1;
    }
    assert(fs.take(fs.len() as int) =~= fs);
    Ok((static_fields, instance_fields))
}

// ---------------------------------------------------------------------------------------------
// Classes

/// The name that `this_class` gives the class, through the run-time constant pool.
pub open spec fn this_class_name(cp: Seq<RuntimeCPEntryModel>, this_class: u16) -> Option<
    Seq<char>,
> {
    if 1 <= this_class <= cp.len() {
        match cp[this_class - 1] {
            RuntimeCPEntryModel::Class { name } => Some(name),
            _ => None,
        }
    } else {
        None
    }
}

/// Whether a class file with decoded attributes can be turned into a class.
pub open spec fn class_loads(cf: crate::classloader::attribute_parser::ClassFileModel) -> bool {
    match spec_runtime_pool(cf.constant_pool) {
        Some(cp) => {
            &&& forall|i: int|
                0 <= i < cf.methods.len() ==> method_loads(
                    cf.constant_pool,
                    cp,
                    #[trigger] cf.methods[i],
                )
            &&& forall|i: int|
                0 <= i < cf.fields.len() ==> field_loads(cf.constant_pool, #[trigger] cf.fields[i])
            &&& this_class_name(cp, cf.this_class) is Some
            &&& spec_class_identifier(this_class_name(cp, cf.this_class)->0) is Some
        },
        None => false,
    }
}

/// Whether `c` is the class built from class file `cf`: its methods and fields as the
/// class file declares them, its identifier the class file's own name, no superclass and no
/// interfaces, and the class file's access flags.
pub open spec fn class_built(cf: crate::classloader::attribute_parser::ClassFileModel, c: BytecodeClass) -> bool {
    let cp = spec_runtime_pool(cf.constant_pool)->0;
    &&& c.methods@.len() == cf.methods.len()
    &&& forall|i: int|
        0 <= i < c.methods@.len() ==> method_built(cf.constant_pool, cp, cf.methods[i], #[trigger] c.methods@[i])
    &&& fields_view(c.static_fields@) == static_fields_of(cf.constant_pool, cf.fields)
    &&& field_descriptors_view(c.instance_fields@) == instance_fields_of(cf.constant_pool, cf.fields)
    &&& Some(c.class_identifier@) == spec_class_identifier(this_class_name(cp, cf.this_class)->0)
    &&& c.super_class is None
    &&& c.interfaces@.len() == 0
    &&& c.access_flags == cf.access_flags
}

/// Builds the class that a class file with decoded attributes describes: its methods, its
/// static and instance fields and its identifier. The class has no superclass and no
/// interfaces.
pub fn create_bytecode_class(class_file: &ClassFile) -> (r: Result<BytecodeClass, ClassCreationError>)
    ensures
        r is Ok <==> class_loads(class_file@),
        r matches Ok(c) ==> class_built(class_file@, c),
{
    let runtime_cp = match try_decode_constant_pool(class_file) {
        Some(cp) => cp,
        None => return Err(ClassCreationError::InvalidConstantPool),
    };
    let methods = match create_bytecode_methods(class_file, &runtime_cp) {
        Ok(m) => m,
        Err(e) => return Err(e),
    };
    let (static_fields, instance_fields) = match create_bytecode_fields(class_file) {
        Ok(f) => f,
        Err(e) => return Err(e),
    };
    let this_class = class_file.this_class as usize;
    if this_class == 0 || this_class > runtime_cp.len() {
        return Err(ClassCreationError::InvalidThisClass);
    }
    let class: &RuntimeCPEntry = &runtime_cp[remove_cp_offset(this_class)];
    let name = match class.as_class() {
        Some(n) => n,
        None => return Err(ClassCreationError::InvalidThisClass),
    };
    let class_identifier = match parse_class_identifier(name) {
        Some(id) => id,
        None => return Err(ClassCreationError::InvalidThisClass),
    };
    Ok(
        BytecodeClass {
            methods,
            static_fields,
            instance_fields,
            class_identifier,
            super_class: None,
            interfaces: Vec::new(),
            access_flags: class_file.access_flags,
        },
    )
}

} // verus!
