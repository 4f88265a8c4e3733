//! `java/lang/System`, whose static fields hold the standard streams.
use vstd::prelude::*;

use crate::class::builtin_classes::{builtin_model, identifier_in, java_identifier, method_codes};
use crate::class::members::{Field, FieldValue, MethodCode};
use crate::heap::{ClassKind, ClassModel, RuntimeClass};

verus! {

/// `java/lang/System`: no methods, and the static fields `out` and `in` that refer to the
/// objects `out` and `input`.
pub open spec fn system_model(out: usize, input: usize) -> ClassModel {
    builtin_model(
        java_identifier("java"@, "lang"@, "System"@),
        Seq::empty(),
        seq![("out"@, FieldValue::Reference(Some(out))), ("in"@, FieldValue::Reference(Some(input)))],
        ClassKind::Plain,
    )
}

/// Makes the class `java/lang/System` with its streams `out` and `input`.
pub fn system_class(out: usize, input: usize) -> (r: RuntimeClass)
    ensures
        r@ == system_model(out, input),
        method_codes(r) == Seq::<MethodCode>::empty(),
{
    let mut static_fields: Vec<Field> = Vec::new();
    static_fields.push(Field { name: "out".to_string(), value: FieldValue::Reference(Some(out)) });
    static_fields.push(Field { name: "in".to_string(), value: FieldValue::Reference(Some(input)) });
    let r = RuntimeClass {
        class_identifier: identifier_in("java", "lang", "System"),
        methods: Vec::new(),
        static_fields,
        instance_fields: Vec::new(),
        super_class: None,
        kind: ClassKind::Plain,
    };
    assert(r@.methods =~= system_model(out, input).methods);
    assert(r@.static_fields =~= system_model(out, input).static_fields);
    assert(r@.instance_fields =~= Seq::<(Seq<char>, crate::class::FieldKind)>::empty());
    assert(method_codes(r) =~= Seq::<MethodCode>::empty());
    r
}

} // verus!
