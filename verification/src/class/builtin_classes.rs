//! Classes that the virtual machine provides itself.
use vstd::prelude::*;

use crate::class::members::{Method, MethodCode, NativeMethod};
use crate::class::{
    ArgumentKind, ArgumentKindModel, ClassIdentifier, ClassIdentifierModel, ClassName,
    SimpleArgumentKind, SimpleArgumentKindModel,
};
use crate::heap::{
    plain_identifier, strings_of, ClassKind, ClassModel, MethodSignature, RuntimeClass,
};

pub mod array;
pub mod file_input_stream;
pub mod input_stream;
pub mod object;
pub mod print_stream;
pub mod string;
pub mod system;
pub mod throwable;

verus! {

/// How each method of a class runs, in the order of its methods.
pub open spec fn method_codes(c: RuntimeClass) -> Seq<MethodCode> {
    c.methods@.map_values(|m: Method| m.code)
}

/// The signature of an instance method with the given name, parameters and return kind.
pub open spec fn instance_signature(
    name: Seq<char>,
    parameters: Seq<ArgumentKindModel>,
    return_type: Option<ArgumentKindModel>,
) -> MethodSignature {
    MethodSignature { name, parameters, return_type, is_static: false }
}

/// A parameter or return kind of the class `name`.
pub open spec fn class_kind_model(name: Seq<char>) -> ArgumentKindModel {
    ArgumentKindModel::Simple(SimpleArgumentKindModel::Class(name))
}

/// The identifier of class `name` in package `package/sub`.
pub open spec fn java_identifier(package: Seq<char>, sub: Seq<char>, name: Seq<char>) -> ClassIdentifierModel {
    plain_identifier(seq![package, sub], name)
}

/// A class of the machine: no instance fields and no superclass.
pub open spec fn builtin_model(
    identifier: ClassIdentifierModel,
    methods: Seq<MethodSignature>,
    static_fields: Seq<(Seq<char>, crate::class::members::FieldValue)>,
    kind: ClassKind,
) -> ClassModel {
    ClassModel {
        identifier,
        methods,
        static_fields,
        instance_fields: Seq::empty(),
        super_class: None,
        kind,
    }
}

/// A native instance method with its name and signature.
pub(crate) fn native_method(
    code: NativeMethod,
    name: &str,
    parameters: Vec<ArgumentKind>,
    return_type: Option<ArgumentKind>,
) -> (r: Method)
    ensures
        r.code == MethodCode::Native(code),
        r.name@ == name@,
        r.parameters@ == parameters@,
        r.return_type == return_type,
        !r.is_static,
{
    Method { code: MethodCode::Native(code), name: name.to_string(), parameters, return_type, is_static: false }
}

/// A parameter or return kind of the given class.
pub(crate) fn class_kind(name: &str) -> (r: ArgumentKind)
    ensures
        r@ == class_kind_model(name@),
{
    ArgumentKind::Simple(SimpleArgumentKind::Class(name.to_string()))
}

/// The single parameter kind `kind`.
pub(crate) fn one_parameter(kind: ArgumentKind) -> (r: Vec<ArgumentKind>)
    ensures
        r@ == seq![kind],
{
    let mut v: Vec<ArgumentKind> = Vec::new();
    v.push(kind);
    v
}

/// The identifier of class `name` in package `package/sub`.
pub(crate) fn identifier_in(package: &str, sub: &str, name: &str) -> (r: ClassIdentifier)
    ensures
        r@ == java_identifier(package@, sub@, name@),
{
    let mut p: Vec<String> = Vec::new();
    p.push(package.to_string());
    p.push(sub.to_string());
    let r = ClassIdentifier { package: p, class_name: ClassName::Plain(name.to_string()) };
    assert(strings_of(r.package@) =~= seq![package@, sub@]);
    assert(r@.package =~= seq![package@, sub@]);
    r
}

/// A class of the machine with the given methods and no fields.
pub(crate) fn builtin_class(class_identifier: ClassIdentifier, methods: Vec<Method>, kind: ClassKind) -> (r: RuntimeClass)
    ensures
        r.class_identifier == class_identifier,
        r.methods == methods,
        r.static_fields@.len() == 0,
        r.instance_fields@.len() == 0,
        r.super_class is None,
        r.kind == kind,
{
    RuntimeClass {
        class_identifier,
        methods,
        static_fields: Vec::new(),
        instance_fields: Vec::new(),
        super_class: None,
        kind,
    }
}

} // verus!
