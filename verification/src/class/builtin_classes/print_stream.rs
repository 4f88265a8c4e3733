//! `java/io/PrintStream`, whose `println` methods print a line.
use vstd::prelude::*;

use crate::class::builtin_classes::{
    builtin_class, builtin_model, class_kind, class_kind_model, identifier_in, instance_signature,
    java_identifier, method_codes, native_method, one_parameter,
};
use crate::class::members::{Method, MethodCode, NativeMethod};
use crate::class::{ArgumentKind, ArgumentKindModel, SimpleArgumentKind, SimpleArgumentKindModel};
use crate::heap::{signature_of, ClassKind, ClassModel, MethodSignature, RuntimeClass};

verus! {

/// The signature of `println` with one parameter of kind `parameter`.
pub open spec fn println_signature(parameter: ArgumentKindModel) -> MethodSignature {
    instance_signature("println"@, seq![parameter], None)
}

/// A primitive parameter kind.
pub open spec fn simple(kind: SimpleArgumentKindModel) -> ArgumentKindModel {
    ArgumentKindModel::Simple(kind)
}

/// `java/io/PrintStream` with its `println` methods for `Object`, `String`, `boolean`,
/// `char`, `double`, `float`, `int` and `long`, in this order.
pub open spec fn print_stream_model() -> ClassModel {
    builtin_model(
        java_identifier("java"@, "io"@, "PrintStream"@),
        seq![
            println_signature(class_kind_model("java/lang/Object"@)),
            println_signature(class_kind_model("java/lang/String"@)),
            println_signature(simple(SimpleArgumentKindModel::Boolean)),
            println_signature(simple(SimpleArgumentKindModel::Char)),
            println_signature(simple(SimpleArgumentKindModel::Double)),
            println_signature(simple(SimpleArgumentKindModel::Float)),
            println_signature(simple(SimpleArgumentKindModel::Int)),
            println_signature(simple(SimpleArgumentKindModel::Long)),
        ],
        Seq::empty(),
        ClassKind::Plain,
    )
}

/// The native methods behind the `println` methods, in the order of the methods.
pub open spec fn print_stream_codes() -> Seq<MethodCode> {
    seq![
        MethodCode::Native(NativeMethod::PrintlnObject),
        MethodCode::Native(NativeMethod::PrintlnString),
        MethodCode::Native(NativeMethod::PrintlnBoolean),
        MethodCode::Native(NativeMethod::PrintlnChar),
        MethodCode::Native(NativeMethod::PrintlnDouble),
        MethodCode::Native(NativeMethod::PrintlnFloat),
        MethodCode::Native(NativeMethod::PrintlnInt),
        MethodCode::Native(NativeMethod::PrintlnLong),
    ]
}

/// `println` with one parameter of kind `parameter`, run by `code`.
fn println_method(code: NativeMethod, parameter: ArgumentKind) -> (r: Method)
    ensures
        r.code == MethodCode::Native(code),
        signature_of(r) == println_signature(parameter@),
{
    let r = native_method(code, "println", one_parameter(parameter), None);
    assert(crate::class::argument_kinds_view(r.parameters@) =~= seq![parameter@]);
    r
}

/// Makes the class `java/io/PrintStream`.
pub fn print_stream_class() -> (r: RuntimeClass)
    ensures
        r@ == print_stream_model(),
        method_codes(r) == print_stream_codes(),
{
    let mut methods: Vec<Method> = Vec::new();
    methods.push(println_method(NativeMethod::PrintlnObject, class_kind("java/lang/Object")));
    methods.push(println_method(NativeMethod::PrintlnString, class_kind("java/lang/String")));
    methods.push(
        println_method(NativeMethod::PrintlnBoolean, ArgumentKind::Simple(SimpleArgumentKind::Boolean)),
    );
    methods.push(println_method(NativeMethod::PrintlnChar, ArgumentKind::Simple(SimpleArgumentKind::Char)));
    methods.push(
        println_method(NativeMethod::PrintlnDouble, ArgumentKind::Simple(SimpleArgumentKind::Double)),
    );
    methods.push(println_method(NativeMethod::PrintlnFloat, ArgumentKind::Simple(SimpleArgumentKind::Float)));
    methods.push(println_method(NativeMethod::PrintlnInt, ArgumentKind::Simple(SimpleArgumentKind::Int)));
    methods.push(println_method(NativeMethod::PrintlnLong, ArgumentKind::Simple(SimpleArgumentKind::Long)));
    let r = builtin_class(identifier_in("java", "io", "PrintStream"), methods, ClassKind::Plain);
    assert(r@.methods =~= print_stream_model().methods);
    assert(r@.static_fields =~= Seq::<(Seq<char>, crate::class::members::FieldValue)>::empty());
    assert(r@.instance_fields =~= Seq::<(Seq<char>, crate::class::FieldKind)>::empty());
    assert(method_codes(r) =~= print_stream_codes());
    r
}

} // verus!
