//! `java/lang/Object`.
use vstd::prelude::*;

use crate::class::builtin_classes::{
    builtin_class, builtin_model, identifier_in, instance_signature, java_identifier, method_codes,
    native_method,
};
use crate::class::members::{Method, MethodCode, NativeMethod};
use crate::heap::{ClassKind, ClassModel, RuntimeClass};

verus! {

/// `java/lang/Object`, with its constructor `<init>()`.
pub open spec fn object_model() -> ClassModel {
    builtin_model(
        java_identifier("java"@, "lang"@, "Object"@),
        seq![instance_signature("<init>"@, Seq::empty(), None)],
        Seq::empty(),
        ClassKind::Plain,
    )
}

/// Makes the class `java/lang/Object`.
pub fn object_class() -> (r: RuntimeClass)
    ensures
        r@ == object_model(),
        method_codes(r) == seq![MethodCode::Native(NativeMethod::ObjectInit)],
{
    let mut methods: Vec<Method> = Vec::new();
    methods.push(native_method(NativeMethod::ObjectInit, "<init>", Vec::new(), None));
    let r = builtin_class(identifier_in("java", "lang", "Object"), methods, ClassKind::Plain);
    assert(crate::class::argument_kinds_view(r.methods@[0].parameters@) =~= Seq::empty());
    assert(r@.methods =~= object_model().methods);
    assert(r@.static_fields =~= Seq::<(Seq<char>, crate::class::members::FieldValue)>::empty());
    assert(r@.instance_fields =~= Seq::<(Seq<char>, crate::class::FieldKind)>::empty());
    assert(method_codes(r) =~= seq![MethodCode::Native(NativeMethod::ObjectInit)]);
    r
}

} // verus!
