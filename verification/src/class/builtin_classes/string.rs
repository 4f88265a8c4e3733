//! `java/lang/String`, whose instances hold a string.
use vstd::prelude::*;

use crate::class::builtin_classes::{
    builtin_class, builtin_model, identifier_in, java_identifier, method_codes,
};
use crate::class::members::MethodCode;
use crate::heap::{ClassKind, ClassModel, RuntimeClass};

verus! {

/// `java/lang/String`, without methods.
pub open spec fn string_model() -> ClassModel {
    builtin_model(java_identifier("java"@, "lang"@, "String"@), Seq::empty(), Seq::empty(), ClassKind::Text)
}

/// Makes the class `java/lang/String`.
pub fn string_class() -> (r: RuntimeClass)
    ensures
        r@ == string_model(),
        method_codes(r) == Seq::<MethodCode>::empty(),
{
    let r = builtin_class(identifier_in("java", "lang", "String"), Vec::new(), ClassKind::Text);
    assert(r@.methods =~= string_model().methods);
    assert(r@.static_fields =~= Seq::<(Seq<char>, crate::class::members::FieldValue)>::empty());
    assert(r@.instance_fields =~= Seq::<(Seq<char>, crate::class::FieldKind)>::empty());
    assert(method_codes(r) =~= Seq::<MethodCode>::empty());
    r
}

} // verus!
