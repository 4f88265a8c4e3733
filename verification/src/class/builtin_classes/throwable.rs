//! `java/lang/Throwable`, whose instances carry a message.
use vstd::prelude::*;

use crate::class::builtin_classes::{
    builtin_class, builtin_model, class_kind, class_kind_model, identifier_in, instance_signature,
    java_identifier, method_codes, native_method, one_parameter,
};
use crate::class::members::{Method, MethodCode, NativeMethod};
use crate::heap::{ClassKind, ClassModel, RuntimeClass};

verus! {

/// `java/lang/Throwable` with its constructor `<init>(String)`, which records the message,
/// and `get_message()`, which returns it.
pub open spec fn throwable_model() -> ClassModel {
    builtin_model(
        java_identifier("java"@, "lang"@, "Throwable"@),
        seq![
            instance_signature("<init>"@, seq![class_kind_model("java/lang/String"@)], None),
            instance_signature("get_message"@, Seq::empty(), Some(class_kind_model("java/lang/String"@))),
        ],
        Seq::empty(),
        ClassKind::Throwable,
    )
}

/// Makes the class `java/lang/Throwable`.
pub fn throwable_class() -> (r: RuntimeClass)
    ensures
        r@ == throwable_model(),
        method_codes(r) == seq![
            MethodCode::Native(NativeMethod::ThrowableInit),
            MethodCode::Native(NativeMethod::ThrowableGetMessage),
        ],
{
    let mut methods: Vec<Method> = Vec::new();
    methods.push(
        native_method(NativeMethod::ThrowableInit, "<init>", one_parameter(class_kind("java/lang/String")), None),
    );
    methods.push(
        native_method(NativeMethod::ThrowableGetMessage, "get_message", Vec::new(), Some(class_kind("java/lang/String"))),
    );
    let r = builtin_class(identifier_in("java", "lang", "Throwable"), methods, ClassKind::Throwable);
    assert(crate::class::argument_kinds_view(r.methods@[0].parameters@) =~= seq![
        class_kind_model("java/lang/String"@),
    ]);
    assert(crate::class::argument_kinds_view(r.methods@[1].parameters@) =~= Seq::empty());
    assert(r@.methods =~= throwable_model().methods);
    assert(r@.static_fields =~= Seq::<(Seq<char>, crate::class::members::FieldValue)>::empty());
    assert(r@.instance_fields =~= Seq::<(Seq<char>, crate::class::FieldKind)>::empty());
    assert(method_codes(r) =~= seq![
        MethodCode::Native(NativeMethod::ThrowableInit),
        MethodCode::Native(NativeMethod::ThrowableGetMessage),
    ]);
    r
}

} // verus!
