//! `java/io/FileInputStream`, whose `read` method reads a byte of the standard input.
use vstd::prelude::*;

use crate::class::builtin_classes::{
    builtin_class, builtin_model, identifier_in, instance_signature, java_identifier, method_codes,
    native_method,
};
use crate::class::members::{Method, MethodCode, NativeMethod};
use crate::class::{ArgumentKind, ArgumentKindModel, SimpleArgumentKind, SimpleArgumentKindModel};
use crate::heap::{ClassKind, ClassModel, RuntimeClass};

verus! {

/// `java/io/FileInputStream` with its method `int read()`.
pub open spec fn file_input_stream_model() -> ClassModel {
    builtin_model(
        java_identifier("java"@, "io"@, "FileInputStream"@),
        seq![
            instance_signature(
                "read"@,
                Seq::empty(),
                Some(ArgumentKindModel::Simple(SimpleArgumentKindModel::Int)),
            ),
        ],
        Seq::empty(),
        ClassKind::Plain,
    )
}

/// Makes the class `java/io/FileInputStream`.
pub fn file_input_stream_class() -> (r: RuntimeClass)
    ensures
        r@ == file_input_stream_model(),
        method_codes(r) == seq![MethodCode::Native(NativeMethod::ReadByte)],
{
    let mut methods: Vec<Method> = Vec::new();
    methods.push(
        native_method(
            NativeMethod::ReadByte,
            "read",
            Vec::new(),
            Some(ArgumentKind::Simple(SimpleArgumentKind::Int)),
        ),
    );
    let r = builtin_class(identifier_in("java", "io", "FileInputStream"), methods, ClassKind::Plain);
    assert(crate::class::argument_kinds_view(r.methods@[0].parameters@) =~= Seq::empty());
    assert(r@.methods =~= file_input_stream_model().methods);
    assert(r@.static_fields =~= Seq::<(Seq<char>, crate::class::members::FieldValue)>::empty());
    assert(r@.instance_fields =~= Seq::<(Seq<char>, crate::class::FieldKind)>::empty());
    assert(method_codes(r) =~= seq![MethodCode::Native(NativeMethod::ReadByte)]);
    r
}

} // verus!
