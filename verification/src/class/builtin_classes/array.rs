//! Array classes: the eight primitive array classes and the arrays of references.
use vstd::prelude::*;

use crate::class::members::FieldValue;
use crate::class::{
    ArrayName, ArrayNameModel, ClassIdentifier, ClassIdentifierModel, ClassName, ClassNameModel,
};
use crate::classloader::opcode_parser::{array_class_of, array_of};

verus! {

/// The identifier of the one-dimensional array class with component `name`, in no package.
pub open spec fn primitive_array_identifier(name: ArrayNameModel) -> ClassIdentifierModel {
    ClassIdentifierModel {
        package: Seq::empty(),
        class_name: ClassNameModel::Array { dimensions: 1, name },
    }
}

/// The identifier of a one-dimensional primitive array class.
fn primitive_array(name: ArrayName) -> (r: ClassIdentifier)
    ensures
        r@ == primitive_array_identifier(name@),
{
    let r = ClassIdentifier {
        package: Vec::new(),
        class_name: ClassName::Array { dimensions: 1, name },
    };
    assert(r@.package =~= Seq::<Seq<char>>::empty());
    r
}

/// What distinguishes one array class from another: its identifier and the default value
/// of its elements.
pub trait ArrayKind {
    /// The identifier of the array class, as an abstract value.
    spec fn identifier(&self) -> ClassIdentifierModel;

    /// The value every element of a new array holds.
    spec fn default_element(&self) -> FieldValue;

    fn class_identifier(&self) -> (r: &ClassIdentifier)
        ensures
            r@ == self.identifier(),
    ;

    fn default_val(&self) -> (r: FieldValue)
        ensures
            r == self.default_element(),
    ;
}

/// Arrays of references to instances of one class (or of arrays of one less dimension).
pub struct ObjectArrayKind {
    pub array_class_identifier: ClassIdentifier,
}

impl ObjectArrayKind {
    /// The kind of arrays whose elements are of the class `component`.
    pub fn new(component: ClassIdentifier) -> (r: ObjectArrayKind)
        requires
            component.class_name matches ClassName::Array { dimensions, .. } ==> dimensions
                < usize::MAX,
        ensures
            r.array_class_identifier@ == array_of(component@),
    {
        ObjectArrayKind { array_class_identifier: array_class_of(component) }
    }
}

impl ArrayKind for ObjectArrayKind {
    open spec fn identifier(&self) -> ClassIdentifierModel {
        self.array_class_identifier@
    }

    open spec fn default_element(&self) -> FieldValue {
        FieldValue::Reference(None)
    }

    fn class_identifier(&self) -> (r: &ClassIdentifier) {
        &self.array_class_identifier
    }

    fn default_val(&self) -> (r: FieldValue) {
        FieldValue::Reference(None)
    }
}

/// `byte[]`.
pub struct ByteArrayKind {
    pub class_identifier: ClassIdentifier,
}

impl ByteArrayKind {
    pub fn new() -> (r: Self)
        ensures
            r.class_identifier@ == primitive_array_identifier(ArrayNameModel::Byte),
    {
        ByteArrayKind { class_identifier: primitive_array(ArrayName::Byte) }
    }
}

impl ArrayKind for ByteArrayKind {
    open spec fn identifier(&self) -> ClassIdentifierModel {
        self.class_identifier@
    }

    open spec fn default_element(&self) -> FieldValue {
        FieldValue::Byte(0)
    }

    fn class_identifier(&self) -> (r: &ClassIdentifier) {
        &self.class_identifier
    }

    fn default_val(&self) -> (r: FieldValue) {
        FieldValue::Byte(0)
    }
}

/// `boolean[]`.
pub struct BoolArrayKind {
    pub class_identifier: ClassIdentifier,
}

impl BoolArrayKind {
    pub fn new() -> (r: Self)
        ensures
            r.class_identifier@ == primitive_array_identifier(ArrayNameModel::Boolean),
    {
        BoolArrayKind { class_identifier: primitive_array(ArrayName::Boolean) }
    }
}

impl ArrayKind for BoolArrayKind {
    open spec fn identifier(&self) -> ClassIdentifierModel {
        self.class_identifier@
    }

    open spec fn default_element(&self) -> FieldValue {
        FieldValue::Boolean(0)
    }

    fn class_identifier(&self) -> (r: &ClassIdentifier) {
        &self.class_identifier
    }

    fn default_val(&self) -> (r: FieldValue) {
        FieldValue::Boolean(0)
    }
}

/// `char[]`.
pub struct CharArrayKind {
    pub class_identifier: ClassIdentifier,
}

impl CharArrayKind {
    pub fn new() -> (r: Self)
        ensures
            r.class_identifier@ == primitive_array_identifier(ArrayNameModel::Char),
    {
        CharArrayKind { class_identifier: primitive_array(ArrayName::Char) }
    }
}

impl ArrayKind for CharArrayKind {
    open spec fn identifier(&self) -> ClassIdentifierModel {
        self.class_identifier@
    }

    open spec fn default_element(&self) -> FieldValue {
        FieldValue::Char(0)
    }

    fn class_identifier(&self) -> (r: &ClassIdentifier) {
        &self.class_identifier
    }

    fn default_val(&self) -> (r: FieldValue) {
        FieldValue::Char(0)
    }
}

/// `double[]`.
pub struct DoubleArrayKind {
    pub class_identifier: ClassIdentifier,
}

impl DoubleArrayKind {
    pub fn new() -> (r: Self)
        ensures
            r.class_identifier@ == primitive_array_identifier(ArrayNameModel::Double),
    {
        DoubleArrayKind { class_identifier: primitive_array(ArrayName::Double) }
    }
}

impl ArrayKind for DoubleArrayKind {
    open spec fn identifier(&self) -> ClassIdentifierModel {
        self.class_identifier@
    }

    open spec fn default_element(&self) -> FieldValue {
        FieldValue::Double(0)
    }

    fn class_identifier(&self) -> (r: &ClassIdentifier) {
        &self.class_identifier
    }

    fn default_val(&self) -> (r: FieldValue) {
        FieldValue::Double(0)
    }
}

/// `float[]`.
pub struct FloatArrayKind {
    pub class_identifier: ClassIdentifier,
}

impl FloatArrayKind {
    pub fn new() -> (r: Self)
        ensures
            r.class_identifier@ == primitive_array_identifier(ArrayNameModel::Float),
    {
        FloatArrayKind { class_identifier: primitive_array(ArrayName::Float) }
    }
}

impl ArrayKind for FloatArrayKind {
    open spec fn identifier(&self) -> ClassIdentifierModel {
        self.class_identifier@
    }

    open spec fn default_element(&self) -> FieldValue {
        FieldValue::Float(0)
    }

    fn class_identifier(&self) -> (r: &ClassIdentifier) {
        &self.class_identifier
    }

    fn default_val(&self) -> (r: FieldValue) {
        FieldValue::Float(0)
    }
}

/// `int[]`.
pub struct IntArrayKind {
    pub class_identifier: ClassIdentifier,
}

impl IntArrayKind {
    pub fn new() -> (r: Self)
        ensures
            r.class_identifier@ == primitive_array_identifier(ArrayNameModel::Int),
    {
        IntArrayKind { class_identifier: primitive_array(ArrayName::Int) }
    }
}

impl ArrayKind for IntArrayKind {
    open spec fn identifier(&self) -> ClassIdentifierModel {
        self.class_identifier@
    }

    open spec fn default_element(&self) -> FieldValue {
        FieldValue::Int(0)
    }

    fn class_identifier(&self) -> (r: &ClassIdentifier) {
        &self.class_identifier
    }

    fn default_val(&self) -> (r: FieldValue) {
        FieldValue::Int(0)
    }
}

/// `long[]`.
pub struct LongArrayKind {
    pub class_identifier: ClassIdentifier,
}

impl LongArrayKind {
    pub fn new() -> (r: Self)
        ensures
            r.class_identifier@ == primitive_array_identifier(ArrayNameModel::Long),
    {
        LongArrayKind { class_identifier: primitive_array(ArrayName::Long) }
    }
}

impl ArrayKind for LongArrayKind {
    open spec fn identifier(&self) -> ClassIdentifierModel {
        self.class_identifier@
    }

    open spec fn default_element(&self) -> FieldValue {
        FieldValue::Long(0)
    }

    fn class_identifier(&self) -> (r: &ClassIdentifier) {
        &self.class_identifier
    }

    fn default_val(&self) -> (r: FieldValue) {
        FieldValue::Long(0)
    }
}

/// `short[]`.
pub struct ShortArrayKind {
    pub class_identifier: ClassIdentifier,
}

impl ShortArrayKind {
    pub fn new() -> (r: Self)
        ensures
            r.class_identifier@ == primitive_array_identifier(ArrayNameModel::Short),
    {
        ShortArrayKind { class_identifier: primitive_array(ArrayName::Short) }
    }
}

impl ArrayKind for ShortArrayKind {
    open spec fn identifier(&self) -> ClassIdentifierModel {
        self.class_identifier@
    }

    open spec fn default_element(&self) -> FieldValue {
        FieldValue::Short(0)
    }

    fn class_identifier(&self) -> (r: &ClassIdentifier) {
        &self.class_identifier
    }

    fn default_val(&self) -> (r: FieldValue) {
        FieldValue::Short(0)
    }
}

/// An array class of the given kind.
pub struct Array<K> {
    pub kind: K,
}

impl<K: ArrayKind> Array<K> {
    /// The array class of the given kind.
    pub fn new(kind: K) -> (r: Array<K>)
        ensures
            r.kind == kind,
    {
        Array { kind }
    }

    /// The identifier of this array class.
    pub fn class_identifier(&self) -> (r: &ClassIdentifier)
        ensures
            r@ == self.kind.identifier(),
    {
        self.kind.class_identifier()
    }

    /// The elements of a new array of this class with `length` elements.
    pub fn new_values(&self, length: usize) -> (r: Vec<FieldValue>)
        ensures
            r@ == Seq::new(length as nat, |i: int| self.kind.default_element()),
    {
        let d = self.kind.default_val();
        let mut values: Vec<FieldValue> = Vec::new();
        let mut i: usize = 0;
        while i < length
            invariant
                i <= length,
                d == self.kind.default_element(),
                values@ == Seq::new(i as nat, |j: int| self.kind.default_element()),
            decreases length - i,
        {
            values.push(d);
            i = i + 1;
            assert(values@ =~= Seq::new(i as nat, |j: int| self.kind.default_element()));
        }
        values
    }
}

} // verus!
