//! The heap of the virtual machine: the classes it knows and the objects it has created.
//! Objects are referred to by their index; they are never freed.
use vstd::prelude::*;

use crate::class::builtin_classes::file_input_stream::{
    file_input_stream_class, file_input_stream_model,
};
use crate::class::builtin_classes::input_stream::{input_stream_class, input_stream_model};
use crate::class::builtin_classes::method_codes;
use crate::class::builtin_classes::object::{object_class, object_model};
use crate::class::builtin_classes::print_stream::{
    print_stream_class, print_stream_codes, print_stream_model,
};
use crate::class::builtin_classes::string::{string_class, string_model};
use crate::class::builtin_classes::system::{system_class, system_model};
use crate::class::builtin_classes::array::{
    primitive_array_identifier, Array, ArrayKind, BoolArrayKind, ByteArrayKind, CharArrayKind,
    DoubleArrayKind, FloatArrayKind, IntArrayKind, LongArrayKind, ObjectArrayKind,
    ShortArrayKind,
};
use crate::class::members::{field_descriptors_view, fields_view, FieldValue, NativeMethod};
use crate::class::{
    ArgumentKindModel, ArrayName, ArrayNameModel, BytecodeClass, ClassIdentifier,
    ClassIdentifierModel, ClassName, ClassNameModel, Field, FieldDescriptor, FieldKind, Method,
    MethodCode,
};


verus! {

/// What the instances of a class hold besides their class.
#[derive(Clone, Copy, PartialEq, Eq, Structural)]
pub enum ClassKind {
    /// Instances hold the instance fields of the class.
    Plain,
    /// Instances hold a string (`java/lang/String`).
    Text,
    /// Instances hold a message (`java/lang/Throwable`).
    Throwable,
    /// Instances are arrays with elements of the given kind.
    Array(FieldKind),
}

/// A class as the virtual machine knows it.
pub struct RuntimeClass {
    pub class_identifier: ClassIdentifier,
    pub methods: Vec<Method>,
    pub static_fields: Vec<Field>,
    pub instance_fields: Vec<FieldDescriptor>,
    pub super_class: Option<usize>,
    pub kind: ClassKind,
}

/// The content of an object.
pub enum ObjectData {
    /// The instance fields, with their values.
    Instance(Vec<Field>),
    Text(String),
    /// The message of a throwable, once it has been set.
    Throwable(Option<Option<usize>>),
    /// The elements of an array, all of the given kind.
    Array { element: FieldKind, values: Vec<FieldValue> },
}

/// The abstract value of an [`ObjectData`].
pub enum ObjectDataModel {
    Instance(Seq<(Seq<char>, FieldValue)>),
    Text(Seq<char>),
    Throwable(Option<Option<usize>>),
    Array { element: FieldKind, values: Seq<FieldValue> },
}

impl View for ObjectData {
    type V = ObjectDataModel;

    open spec fn view(&self) -> ObjectDataModel {
        match self {
            ObjectData::Instance(fields) => ObjectDataModel::Instance(fields_view(fields@)),
            ObjectData::Text(s) => ObjectDataModel::Text(s@),
            ObjectData::Throwable(m) => ObjectDataModel::Throwable(*m),
            ObjectData::Array { element, values } => ObjectDataModel::Array {
                element: *element,
                values: values@,
            },
        }
    }
}

/// An object: the index of its class and its content.
pub struct HeapObject {
    pub class: usize,
    pub data: ObjectData,
}

/// What callers see of a method: its name, its signature and whether it is static.
pub struct MethodSignature {
    pub name: Seq<char>,
    pub parameters: Seq<ArgumentKindModel>,
    pub return_type: Option<ArgumentKindModel>,
    pub is_static: bool,
}

/// The signature of a method.
pub open spec fn signature_of(m: Method) -> MethodSignature {
    MethodSignature {
        name: m.name@,
        parameters: m.parameters_view(),
        return_type: m.return_view(),
        is_static: m.is_static,
    }
}

/// The abstract value of a [`RuntimeClass`].
pub struct ClassModel {
    pub identifier: ClassIdentifierModel,
    pub methods: Seq<MethodSignature>,
    pub static_fields: Seq<(Seq<char>, FieldValue)>,
    pub instance_fields: Seq<(Seq<char>, FieldKind)>,
    pub super_class: Option<usize>,
    pub kind: ClassKind,
}

impl View for RuntimeClass {
    type V = ClassModel;

    open spec fn view(&self) -> ClassModel {
        ClassModel {
            identifier: self.class_identifier@,
            methods: self.methods@.map_values(|m: Method| signature_of(m)),
            static_fields: fields_view(self.static_fields@),
            instance_fields: field_descriptors_view(self.instance_fields@),
            super_class: self.super_class,
            kind: self.kind,
        }
    }
}

impl View for HeapObject {
    type V = (usize, ObjectDataModel);

    open spec fn view(&self) -> (usize, ObjectDataModel) {
        (self.class, self.data@)
    }
}

/// The classes and objects of the virtual machine.
pub struct Heap {
    pub classes: Vec<RuntimeClass>,
    pub objects: Vec<HeapObject>,
}

/// The abstract value of a [`Heap`]: its classes, what each method of each class runs (in
/// the order of the class's methods), and its objects.
pub struct HeapModel {
    pub classes: Seq<ClassModel>,
    pub codes: Seq<Seq<MethodCode>>,
    pub objects: Seq<(usize, ObjectDataModel)>,
}

impl View for Heap {
    type V = HeapModel;

    open spec fn view(&self) -> HeapModel {
        HeapModel {
            classes: self.classes@.map_values(|c: RuntimeClass| c@),
            codes: self.classes@.map_values(|c: RuntimeClass| method_codes(c)),
            objects: self.objects@.map_values(|o: HeapObject| o@),
        }
    }
}

/// The index of the first class with identifier `id`, if any.
pub open spec fn class_index(h: HeapModel, id: ClassIdentifierModel) -> Option<int> {
    if exists|k: int| 0 <= k < h.classes.len() && #[trigger] h.classes[k].identifier == id {
        Some(
            choose|k: int|
                0 <= k < h.classes.len() && #[trigger] h.classes[k].identifier == id && forall|
                    j: int,
                | 0 <= j < k ==> h.classes[j].identifier != id,
        )
    } else {
        None
    }
}

/// The identifier of a plain class.
pub open spec fn plain_identifier(package: Seq<Seq<char>>, name: Seq<char>) -> ClassIdentifierModel {
    ClassIdentifierModel { package, class_name: ClassNameModel::Plain(name) }
}

/// Whether the array class `id` exists or can be made from classes that exist: an array
/// class of one less dimension that can be made, or, for one dimension, the component class.
pub open spec fn array_class_available(h: HeapModel, id: ClassIdentifierModel) -> bool
    decreases (match id.class_name {
        ClassNameModel::Array { dimensions, .. } => dimensions as int,
        _ => 0,
    }),
{
    if class_index(h, id) is Some {
        true
    } else {
        match id.class_name {
            ClassNameModel::Array { dimensions, name } => if dimensions > 1 {
                array_class_available(
                    h,
                    ClassIdentifierModel {
                        package: id.package,
                        class_name: ClassNameModel::Array {
                            dimensions: (dimensions - 1) as usize,
                            name,
                        },
                    },
                )
            } else if dimensions == 1 {
                match name {
                    ArrayNameModel::Class(c) => class_index(h, plain_identifier(id.package, c))
                        is Some,
                    _ => false,
                }
            } else {
                false
            },
            ClassNameModel::Plain(_) => false,
        }
    }
}

/// The runtime class of a class loaded from a class file: a plain class without superclass.
pub open spec fn bytecode_model(c: BytecodeClass) -> ClassModel {
    ClassModel {
        identifier: c.class_identifier@,
        methods: c.methods@.map_values(|m: Method| signature_of(m)),
        static_fields: fields_view(c.static_fields@),
        instance_fields: field_descriptors_view(c.instance_fields@),
        super_class: None,
        kind: ClassKind::Plain,
    }
}

/// Whether heap `h1` is `h0` with class `c` added at index `k`: in place of the first class
/// with the same identifier, or after the last class.
pub open spec fn bytecode_class_added(h0: HeapModel, c: BytecodeClass, h1: HeapModel, k: usize) -> bool {
    &&& h1.objects == h0.objects
    &&& match class_index(h0, c.class_identifier@) {
        Some(j) => k == j && h1.classes == h0.classes.update(j, bytecode_model(c)),
        None => k == h0.classes.len() && h1.classes == h0.classes.push(bytecode_model(c)),
    }
}

/// When some class has identifier `id`, `class_index` gives the first such class.
#[verifier::rlimit(40)]
pub proof fn lemma_class_index_first(h: HeapModel, id: ClassIdentifierModel, n: int)
    requires
        0 <= n <= h.classes.len(),
        forall|j: int| 0 <= j < n ==> #[trigger] h.classes[j].identifier != id,
        exists|k: int| n <= k < h.classes.len() && #[trigger] h.classes[k].identifier == id,
    ensures
        class_index(h, id) matches Some(f) && 0 <= f < h.classes.len() && h.classes[f].identifier == id
            && forall|j: int| 0 <= j < f ==> h.classes[j].identifier != id,
    decreases h.classes.len() - n,
{
    if h.classes[n].identifier == id {
        let c = choose|c: int|
            0 <= c < h.classes.len() && #[trigger] h.classes[c].identifier == id && forall|j: int|
                0 <= j < c ==> h.classes[j].identifier != id;
        if c < n {
        } else if c > n {
            assert(h.classes[n].identifier == id);
        }
    } else {
        let k = choose|k: int| n <= k < h.classes.len() && #[trigger] h.classes[k].identifier == id;
        assert(n + 1 <= k);
        lemma_class_index_first(h, id, n + 1);
    }
}

/// A class loaded from a class file is found afterwards at the index it was added at, and
/// loading a class with the same identifier again replaces it there.
pub proof fn lemma_added_class_found(h0: HeapModel, c: BytecodeClass, h1: HeapModel, k: usize)
    requires
        bytecode_class_added(h0, c, h1, k),
    ensures
        class_index(h1, c.class_identifier@) == Some(k as int),
        h1.classes[k as int] == bytecode_model(c),
{
    let id = c.class_identifier@;
    match class_index(h0, id) {
        Some(first) => {
            assert(exists|k: int| 0 <= k < h0.classes.len() && #[trigger] h0.classes[k].identifier == id);
            lemma_class_index_first(h0, id, 0);
            assert(0 <= first < h0.classes.len());
            assert(h0.classes[first].identifier == id);
            assert(forall|j: int| 0 <= j < first ==> h0.classes[j].identifier != id);
            assert(h1.classes.len() == h0.classes.len());
            assert(forall|j: int| 0 <= j < first ==> h1.classes[j] == h0.classes[j]);
        },
        None => {
            assert(forall|j: int| 0 <= j < h0.classes.len() ==> h0.classes[j].identifier != id);
            assert(forall|j: int| 0 <= j < h0.classes.len() ==> h1.classes[j] == h0.classes[j]);
        },
    }
    assert(h1.classes[k as int] == bytecode_model(c));
    assert(forall|j: int| 0 <= j < k ==> #[trigger] h1.classes[j].identifier != id);
    assert(h1.classes[k as int].identifier == id);
    let chosen = class_index(h1, id)->0;
    assert(class_index(h1, id) is Some);
    if chosen < k {
        assert(h1.classes[chosen].identifier == id);
    } else if chosen > k {
        assert(h1.classes[k as int].identifier == id);
    }
}

/// Whether `h2` holds the classes of `h1`, unchanged and at the same indices, and maybe more.
pub open spec fn classes_kept(h1: HeapModel, h2: HeapModel) -> bool {
    &&& h1.classes.len() <= h2.classes.len()
    &&& forall|k: int| 0 <= k < h1.classes.len() ==> #[trigger] h2.classes[k] == h1.classes[k]
}

/// A class that can be found stays findable when classes are only added.
pub proof fn lemma_class_index_kept(h1: HeapModel, h2: HeapModel, id: ClassIdentifierModel)
    requires
        classes_kept(h1, h2),
        class_index(h1, id) is Some,
    ensures
        class_index(h2, id) is Some,
{
    let k = choose|k: int| 0 <= k < h1.classes.len() && #[trigger] h1.classes[k].identifier == id;
    assert(h2.classes[k] == h1.classes[k]);
    assert(h2.classes[k].identifier == id);
}

/// An array class that can be found or made stays so when classes are only added.
pub proof fn lemma_array_class_available_kept(h1: HeapModel, h2: HeapModel, id: ClassIdentifierModel)
    requires
        classes_kept(h1, h2),
        array_class_available(h1, id),
    ensures
        array_class_available(h2, id),
    decreases (match id.class_name {
        ClassNameModel::Array { dimensions, .. } => dimensions as int,
        _ => 0,
    }),
{
    if class_index(h1, id) is Some {
        lemma_class_index_kept(h1, h2, id);
    } else {
        match id.class_name {
            ClassNameModel::Array { dimensions, name } => {
                if dimensions > 1 {
                    lemma_array_class_available_kept(
                        h1,
                        h2,
                        ClassIdentifierModel {
                            package: id.package,
                            class_name: ClassNameModel::Array { dimensions: (dimensions - 1) as usize, name },
                        },
                    );
                } else if dimensions == 1 {
                    if let ArrayNameModel::Class(c) = name {
                        lemma_class_index_kept(h1, h2, plain_identifier(id.package, c));
                    }
                }
            },
            ClassNameModel::Plain(_) => {},
        }
    }
}

/// The array class of `dims` dimensions of `name` in `package`.
pub open spec fn array_id(package: Seq<Seq<char>>, name: ArrayNameModel, dims: nat) -> ClassIdentifierModel {
    ClassIdentifierModel {
        package,
        class_name: ClassNameModel::Array { dimensions: dims as usize, name },
    }
}

/// An array class of references with identifier `id`: no methods, no fields, no superclass.
pub open spec fn reference_array_model(id: ClassIdentifierModel) -> ClassModel {
    ClassModel {
        identifier: id,
        methods: Seq::empty(),
        static_fields: Seq::empty(),
        instance_fields: Seq::empty(),
        super_class: None,
        kind: ClassKind::Array(FieldKind::Reference),
    }
}

/// Whether `h1` is `h0` with array classes of references appended, none of which `h0` held:
/// one per dimension, the dimensions increasing one by one and ending with those of `id`,
/// all with `id`'s package and element.
#[verifier::opaque]
pub open spec fn arrays_appended(h0: HeapModel, h1: HeapModel, id: ClassIdentifierModel) -> bool {
    let n = h0.classes.len();
    let m = h1.classes.len() - n;
    match id.class_name {
        ClassNameModel::Array { dimensions, name } => {
            &&& 0 <= m <= dimensions
            &&& h1.codes.len() == h1.classes.len()
            &&& forall|t: int|
                #![trigger h1.classes[n + t]]
                0 <= t < m ==> {
                    let aid = array_id(id.package, name, (dimensions - m + 1 + t) as nat);
                    &&& h1.classes[n + t] == reference_array_model(aid)
                    &&& h1.codes[n + t] == Seq::<MethodCode>::empty()
                    &&& class_index(h0, aid) is None
                }
        },
        ClassNameModel::Plain(_) => m == 0,
    }
}

/// Appending the array class `id` after the classes made for one dimension less keeps the
/// appended classes in order.
proof fn lemma_arrays_appended_step(h0: HeapModel, h1: HeapModel, h2: HeapModel, id: ClassIdentifierModel)
    requires
        id.class_name is Array,
        (id.class_name)->Array_dimensions >= 1,
        class_index(h0, id) is None,
        heap_extends(h0, h1),
        h1.codes.len() == h1.classes.len(),
        (id.class_name)->Array_dimensions > 1 ==> arrays_appended(
            h0,
            h1,
            array_id(id.package, (id.class_name)->Array_name, ((id.class_name)->Array_dimensions - 1) as nat),
        ),
        (id.class_name)->Array_dimensions == 1 ==> h1.classes.len() == h0.classes.len(),
        h2.classes == h1.classes.push(reference_array_model(id)),
        h2.codes == h1.codes.push(Seq::<MethodCode>::empty()),
    ensures
        arrays_appended(h0, h2, id),
{
    reveal(arrays_appended);
    let d = (id.class_name)->Array_dimensions;
    let name = (id.class_name)->Array_name;
    let n = h0.classes.len();
    let m1 = h1.classes.len() - n;
    assert(id == array_id(id.package, name, d as nat));
    assert forall|t: int| 0 <= t < m1 + 1 implies {
        let aid = array_id(id.package, name, (d - (m1 + 1) + 1 + t) as nat);
        &&& #[trigger] h2.classes[n + t] == reference_array_model(aid)
        &&& h2.codes[n + t] == Seq::<MethodCode>::empty()
        &&& class_index(h0, aid) is None
    } by {
        if t < m1 {
            assert(h2.classes[n + t] == h1.classes[n + t]);
            assert(h2.codes[n + t] == h1.codes[n + t]);
        } else {
            assert(n + t == h1.classes.len());
        }
    }
}

/// The classes made for fewer dimensions than `id`'s do not include `id`.
proof fn lemma_absent_after_smaller(h0: HeapModel, h1: HeapModel, id: ClassIdentifierModel)
    requires
        id.class_name is Array,
        (id.class_name)->Array_dimensions >= 1,
        class_index(h0, id) is None,
        heap_extends(h0, h1),
        (id.class_name)->Array_dimensions > 1 ==> arrays_appended(
            h0,
            h1,
            array_id(id.package, (id.class_name)->Array_name, ((id.class_name)->Array_dimensions - 1) as nat),
        ),
        (id.class_name)->Array_dimensions == 1 ==> h1.classes.len() == h0.classes.len(),
    ensures
        class_index(h1, id) is None,
{
    reveal(arrays_appended);
    let d = (id.class_name)->Array_dimensions;
    let name = (id.class_name)->Array_name;
    let n = h0.classes.len();
    let m = h1.classes.len() - n;
    assert(id == array_id(id.package, name, d as nat));
    assert forall|j: int| 0 <= j < h1.classes.len() implies #[trigger] h1.classes[j].identifier != id by {
        if j < n {
            assert(h1.classes[j] == h0.classes[j]);
            if h0.classes[j].identifier == id {
                assert(exists|k: int| 0 <= k < h0.classes.len() && #[trigger] h0.classes[k].identifier == id);
            }
        } else {
            let t = j - n;
            assert(h1.classes[n + t].identifier == array_id(id.package, name, ((d - 1) as usize - m + 1 + t) as nat));
        }
    }
}

/// The class appended last is the first one with its identifier.
proof fn lemma_appended_found(h0: HeapModel, h1: HeapModel, id: ClassIdentifierModel)
    requires
        id.class_name is Array,
        arrays_appended(h0, h1, id),
        heap_extends(h0, h1),
        class_index(h0, id) is None,
        h1.classes.len() > h0.classes.len(),
    ensures
        class_index(h1, id) == Some(h1.classes.len() - 1),
{
    reveal(arrays_appended);
    let d = (id.class_name)->Array_dimensions;
    let name = (id.class_name)->Array_name;
    let n = h0.classes.len();
    let m = h1.classes.len() - n;
    let last = h1.classes.len() - 1;
    assert(id == array_id(id.package, name, d as nat));
    assert(h1.classes[n + (m - 1)].identifier == id);
    assert forall|j: int| 0 <= j < last implies #[trigger] h1.classes[j].identifier != id by {
        if j < n {
            assert(h1.classes[j] == h0.classes[j]);
            if h0.classes[j].identifier == id {
                assert(exists|k: int| 0 <= k < h0.classes.len() && #[trigger] h0.classes[k].identifier == id);
            }
        } else {
            let t = j - n;
            assert(h1.classes[n + t].identifier == array_id(id.package, name, (d - m + 1 + t) as nat));
        }
    }
    lemma_class_index_first(h1, id, 0);
    let f = class_index(h1, id)->0;
    if f < last {
        assert(h1.classes[f].identifier != id);
    } else if f > last {
        assert(h1.classes[last].identifier == id);
    }
}

/// Whether the result `r` of a lookup of `id`, when there is one, is the index of the first
/// class of `h` with identifier `id`.
#[verifier::opaque]
pub open spec fn first_found(h: HeapModel, id: ClassIdentifierModel, r: Option<usize>) -> bool {
    r matches Some(k) ==> class_index(h, id) == Some(k as int)
}

/// Whether no two of `classes` have the same identifier.
#[verifier::opaque]
pub open spec fn distinct_identifiers(classes: Seq<ClassModel>) -> bool {
    forall|i: int, j: int|
        0 <= i < classes.len() && 0 <= j < classes.len() && i != j ==> #[trigger] classes[i].identifier
            != #[trigger] classes[j].identifier
}

/// With distinct identifiers, the class at `k` is the one `class_index` finds for its
/// identifier.
pub proof fn lemma_distinct_index(classes: Seq<ClassModel>, h: HeapModel, k: int)
    requires
        h.classes == classes,
        distinct_identifiers(classes),
        0 <= k < classes.len(),
    ensures
        class_index(h, classes[k].identifier) == Some(k),
{
    reveal(distinct_identifiers);
    let id = classes[k].identifier;
    assert(h.classes[k].identifier == id);
    let f = class_index(h, id)->0;
    assert(h.classes[f].identifier == id);
}

/// Replacing a class by one with the same identifier, or adding one with a new identifier,
/// keeps identifiers distinct.
proof fn lemma_distinct_kept(classes: Seq<ClassModel>, h: HeapModel, c: ClassModel)
    requires
        h.classes == classes,
        distinct_identifiers(classes),
    ensures
        class_index(h, c.identifier) matches Some(k) ==> distinct_identifiers(classes.update(k, c)),
        class_index(h, c.identifier) is None ==> distinct_identifiers(classes.push(c)),
{
    reveal(distinct_identifiers);
    match class_index(h, c.identifier) {
        Some(k) => {
            assert(exists|k: int| 0 <= k < h.classes.len() && #[trigger] h.classes[k].identifier == c.identifier);
            let u = classes.update(k, c);
            assert forall|i: int, j: int|
                0 <= i < u.len() && 0 <= j < u.len() && i != j implies #[trigger] u[i].identifier
                != #[trigger] u[j].identifier by {
                assert(u[i].identifier == classes[i].identifier);
                assert(u[j].identifier == classes[j].identifier);
            }
        },
        None => {
            let u = classes.push(c);
            assert forall|i: int, j: int|
                0 <= i < u.len() && 0 <= j < u.len() && i != j implies #[trigger] u[i].identifier
                != #[trigger] u[j].identifier by {
                if i < classes.len() && j < classes.len() {
                    assert(u[i] == classes[i] && u[j] == classes[j]);
                } else if i < classes.len() {
                    assert(u[i] == h.classes[i]);
                } else {
                    assert(u[j] == h.classes[j]);
                }
            }
        },
    }
}

/// Whether a lookup of `id` in `h0` that ended in heap `h1` with result `r` gave the index
/// of the first class with identifier `id` and left the heap as it was, when `h0` held
/// such a class.
#[verifier::opaque]
pub open spec fn found_unchanged(h0: HeapModel, h1: HeapModel, id: ClassIdentifierModel, r: Option<usize>) -> bool {
    class_index(h0, id) matches Some(k) ==> r == Some(k as usize) && h1 == h0
}

/// Whether `h1` holds the array classes of `id`'s component with `j` dimensions for every
/// `j` from `id`'s dimensions down to the first one whose class `h0` already held: every
/// class of fewer dimensions that an array class of `id`'s dimensions was made from.
#[verifier::opaque]
pub open spec fn lower_arrays_present(h0: HeapModel, h1: HeapModel, id: ClassIdentifierModel) -> bool {
    match id.class_name {
        ClassNameModel::Array { dimensions, name } => forall|j: nat|
            #![trigger array_id(id.package, name, j)]
            1 <= j <= dimensions && (forall|k: nat|
                j < k <= dimensions ==> class_index(h0, #[trigger] array_id(id.package, name, k))
                    is None) ==> class_index(h1, array_id(id.package, name, j)) is Some,
        ClassNameModel::Plain(_) => true,
    }
}

/// An array class that `h1` holds brings with it the classes of fewer dimensions that were
/// made on the way to it: those of `hmid`, which `h1` keeps, when `h0` lacked the class.
pub proof fn lemma_lower_arrays_present(h0: HeapModel, hmid: HeapModel, h1: HeapModel, id: ClassIdentifierModel)
    requires
        id.class_name is Array,
        classes_kept(hmid, h1),
        exists|k: int| 0 <= k < h1.classes.len() && #[trigger] h1.classes[k].identifier == id,
        (id.class_name)->Array_dimensions > 1 && class_index(h0, id) is None ==> lower_arrays_present(
            h0,
            hmid,
            array_id(id.package, (id.class_name)->Array_name, ((id.class_name)->Array_dimensions - 1) as nat),
        ),
    ensures
        lower_arrays_present(h0, h1, id),
{
    reveal(lower_arrays_present);
    let d = (id.class_name)->Array_dimensions;
    let name = (id.class_name)->Array_name;
    let p = id.package;
    assert(id == array_id(p, name, d as nat));
    assert forall|j: nat|
        1 <= j <= d && (forall|k: nat|
            j < k <= d ==> class_index(h0, #[trigger] array_id(p, name, k)) is None) implies class_index(
        h1,
        #[trigger] array_id(p, name, j),
    ) is Some by {
        if j < d {
            assert(class_index(h0, array_id(p, name, d as nat)) is None);
            let smaller = array_id(p, name, (d - 1) as nat);
            assert(forall|k: nat|
                j < k <= (d - 1) as usize ==> class_index(h0, #[trigger] array_id(smaller.package, name, k))
                    is None);
            assert(class_index(hmid, array_id(smaller.package, name, j)) is Some);
            lemma_class_index_kept(hmid, h1, array_id(p, name, j));
        }
    }
}

/// Whether `h2` holds the classes (with the code of their methods) and the objects of `h1`,
/// unchanged, and maybe more classes.
pub open spec fn heap_extends(h1: HeapModel, h2: HeapModel) -> bool {
    &&& h1.classes.len() <= h2.classes.len()
    &&& forall|k: int| 0 <= k < h1.classes.len() ==> #[trigger] h2.classes[k] == h1.classes[k]
    &&& forall|k: int| 0 <= k < h1.classes.len() ==> #[trigger] h2.codes[k] == h1.codes[k]
    &&& h2.objects == h1.objects
}

/// The contents of a list of strings.
pub open spec fn strings_of(v: Seq<String>) -> Seq<Seq<char>> {
    v.map_values(|s: String| s@)
}

/// A one-dimensional primitive array class: its identifier, no methods or fields.
pub open spec fn primitive_array_model(name: ArrayNameModel, element: FieldKind) -> ClassModel {
    ClassModel {
        identifier: primitive_array_identifier(name),
        methods: Seq::empty(),
        static_fields: Seq::empty(),
        instance_fields: Seq::empty(),
        super_class: None,
        kind: ClassKind::Array(element),
    }
}

/// The classes of a new heap, in order: `Object`, `String`, `PrintStream`, `InputStream`,
/// `FileInputStream`, `System` (whose `out` and `in` are the first two objects) and the
/// arrays of `boolean`, `byte`, `char`, `double`, `float`, `long`, `int` and `short`.
pub open spec fn builtin_class_models() -> Seq<ClassModel> {
    seq![
        object_model(),
        string_model(),
        print_stream_model(),
        input_stream_model(),
        file_input_stream_model(),
        system_model(0, 1),
        primitive_array_model(ArrayNameModel::Boolean, FieldKind::Boolean),
        primitive_array_model(ArrayNameModel::Byte, FieldKind::Byte),
        primitive_array_model(ArrayNameModel::Char, FieldKind::Char),
        primitive_array_model(ArrayNameModel::Double, FieldKind::Double),
        primitive_array_model(ArrayNameModel::Float, FieldKind::Float),
        primitive_array_model(ArrayNameModel::Long, FieldKind::Long),
        primitive_array_model(ArrayNameModel::Int, FieldKind::Int),
        primitive_array_model(ArrayNameModel::Short, FieldKind::Short),
    ]
}

/// How the methods of the classes of a new heap run, class by class.
pub open spec fn builtin_method_codes() -> Seq<Seq<MethodCode>> {
    let none = Seq::<MethodCode>::empty();
    seq![
        seq![MethodCode::Native(NativeMethod::ObjectInit)],
        none,
        print_stream_codes(),
        seq![MethodCode::Native(NativeMethod::ReadByte)],
        seq![MethodCode::Native(NativeMethod::ReadByte)],
        none,
        none,
        none,
        none,
        none,
        none,
        none,
        none,
        none,
    ]
}

/// The objects of a new heap: a print stream (`System.out`) and an input stream
/// (`System.in`), both without fields.
pub open spec fn builtin_objects() -> Seq<(usize, ObjectDataModel)> {
    seq![
        (2usize, ObjectDataModel::Instance(Seq::empty())),
        (3usize, ObjectDataModel::Instance(Seq::empty())),
    ]
}

/// The classes of a new heap have distinct identifiers.
proof fn lemma_builtin_identifiers_distinct()
    ensures
        distinct_identifiers(builtin_class_models()),
{
    reveal(distinct_identifiers);
    reveal_strlit("Object");
    reveal_strlit("String");
    reveal_strlit("PrintStream");
    reveal_strlit("InputStream");
    reveal_strlit("FileInputStream");
    reveal_strlit("System");
    let cs = builtin_class_models();
    let names = seq!["Object"@, "String"@, "PrintStream"@, "InputStream"@, "FileInputStream"@, "System"@];
    assert(names[0][0] == 'O' && names[1][0] == 'S' && names[1][1] == 't' && names[2][0] == 'P');
    assert(names[3][0] == 'I' && names[4][0] == 'F' && names[5][0] == 'S' && names[5][1] == 'y');
    assert forall|i: int| 0 <= i < 6 implies #[trigger] cs[i].identifier.class_name
        == ClassNameModel::Plain(names[i]) by {}
    assert forall|i: int| 6 <= i < 14 implies #[trigger] cs[i].identifier.class_name is Array by {}
    assert forall|i: int, j: int|
        0 <= i < cs.len() && 0 <= j < cs.len() && i != j implies #[trigger] cs[i].identifier
        != #[trigger] cs[j].identifier by {
        if i < 6 && j < 6 {
            assert(names[i] != names[j]) by {
                if names[i].len() == names[j].len() {
                    assert(names[i][0] != names[j][0] || names[i][1] != names[j][1]);
                }
            }
        } else if i >= 6 && j >= 6 {
            assert((cs[i].identifier.class_name)->Array_name != (cs[j].identifier.class_name)->Array_name);
        }
    }
}

/// A one-dimensional primitive array class.
fn primitive_array_class<K: ArrayKind>(array: Array<K>, name: ArrayName, element: FieldKind) -> (r: RuntimeClass)
    requires
        array.kind.identifier() == primitive_array_identifier(name@),
    ensures
        r@ == primitive_array_model(name@, element),
        method_codes(r) == Seq::<MethodCode>::empty(),
{
    let id = array.class_identifier().clone();
    let r = RuntimeClass {
        class_identifier: id,
        methods: Vec::new(),
        static_fields: Vec::new(),
        instance_fields: Vec::new(),
        super_class: None,
        kind: ClassKind::Array(element),
    };
    assert(r@.methods =~= Seq::<MethodSignature>::empty());
    assert(r@.static_fields =~= Seq::<(Seq<char>, FieldValue)>::empty());
    assert(r@.instance_fields =~= Seq::<(Seq<char>, FieldKind)>::empty());
    assert(method_codes(r) =~= Seq::<MethodCode>::empty());
    r
}

impl Heap {
    /// A heap with the classes that the virtual machine provides: `Object`, `String`,
    /// `PrintStream`, `InputStream`, `FileInputStream`, `System` (whose static fields `out`
    /// and `in` hold a print stream and an input stream) and the eight primitive array
    /// classes.
    pub fn new() -> (r: Heap)
        ensures
            r.wf(),
            r@.classes == builtin_class_models(),
            r.classes@.map_values(|c: RuntimeClass| method_codes(c)) == builtin_method_codes(),
            r@.objects == builtin_objects(),
    {
        let mut classes: Vec<RuntimeClass> = Vec::new();
        classes.push(object_class());
        classes.push(string_class());
        classes.push(print_stream_class());
        classes.push(input_stream_class());
        classes.push(file_input_stream_class());
        classes.push(system_class(0, 1));
        classes.push(primitive_array_class(Array::new(BoolArrayKind::new()), ArrayName::Boolean, FieldKind::Boolean));
        classes.push(primitive_array_class(Array::new(ByteArrayKind::new()), ArrayName::Byte, FieldKind::Byte));
        classes.push(primitive_array_class(Array::new(CharArrayKind::new()), ArrayName::Char, FieldKind::Char));
        classes.push(primitive_array_class(Array::new(DoubleArrayKind::new()), ArrayName::Double, FieldKind::Double));
        classes.push(primitive_array_class(Array::new(FloatArrayKind::new()), ArrayName::Float, FieldKind::Float));
        classes.push(primitive_array_class(Array::new(LongArrayKind::new()), ArrayName::Long, FieldKind::Long));
        classes.push(primitive_array_class(Array::new(IntArrayKind::new()), ArrayName::Int, FieldKind::Int));
        classes.push(primitive_array_class(Array::new(ShortArrayKind::new()), ArrayName::Short, FieldKind::Short));
        let mut objects: Vec<HeapObject> = Vec::new();
        objects.push(HeapObject { class: 2, data: ObjectData::Instance(Vec::new()) });
        objects.push(HeapObject { class: 3, data: ObjectData::Instance(Vec::new()) });
        let r = Heap { classes, objects };
        assert(fields_view(Seq::<Field>::empty()) =~= Seq::empty());
        assert(r@.classes =~= builtin_class_models());
        assert(r.classes@.map_values(|c: RuntimeClass| method_codes(c)) =~= builtin_method_codes());
        assert(r@.objects =~= builtin_objects());
        proof {
            lemma_builtin_identifiers_distinct();
        }
        r
    }

    /// Every object's class exists, and no two classes have the same identifier.
    pub open spec fn wf(&self) -> bool {
        &&& forall|i: int| 0 <= i < self.objects@.len() ==> #[trigger] self.objects@[i].class
            < self.classes@.len()
        &&& distinct_identifiers(self@.classes)
    }

    /// The index of the first class with identifier `id`; `None` when there is none.
    pub fn find_class(&self, id: &ClassIdentifier) -> (r: Option<usize>)
        ensures
            r is Some <==> class_index(self@, id@) is Some,
            r matches Some(k) ==> class_index(self@, id@) == Some(k as int) && k
                < self@.classes.len() && self@.classes[k as int].identifier == id@,
    {
        let mut k: usize = 0;
        while k < self.classes.len()
            invariant
                k <= self.classes@.len(),
                forall|j: int| 0 <= j < k ==> self@.classes[j].identifier != id@,
            decreases self.classes@.len() - k,
        {
            if self.classes[k].class_identifier.equals(id) {
                assert(self@.classes[k as int].identifier == id@);
                proof {
                    let c = choose|c: int|
                        0 <= c < self@.classes.len() && #[trigger] self@.classes[c].identifier
                            == id@ && forall|j: int|
                            0 <= j < c ==> self@.classes[j].identifier != id@;
                    if c < k {
                    } else if c > k {
                        assert(self@.classes[k as int].identifier == id@);
                    }
                }
                return Some(k);
            }
            k = k + 1;
        }
        None
    }

    /// Adds a class, replacing the first class with the same identifier if there is one.
    /// Returns the index of the class.
    pub fn add_class(&mut self, class: RuntimeClass) -> (r: usize)
        requires
            old(self).wf(),
        ensures
            final(self).wf(),
            r < final(self)@.classes.len(),
            final(self)@.classes[r as int] == class@,
            final(self).classes@[r as int] == class,
            final(self)@.objects == old(self)@.objects,
            match class_index(old(self)@, class@.identifier) {
                Some(k) => r == k && final(self)@.classes == old(self)@.classes.update(k, class@),
                None => r == old(self)@.classes.len() && final(self)@.classes == old(self)@.classes.push(class@),
            },
    {
        proof {
            lemma_distinct_kept(self@.classes, self@, class@);
        }
        match self.find_class(&class.class_identifier) {
            Some(k) => {
                let ghost old_classes = self@.classes;
                self.classes.set(k, class);
                assert(self@.classes =~= old_classes.update(k as int, class@));
                k
            },
            None => {
                let ghost old_classes = self@.classes;
                self.classes.push(class);
                assert(self@.classes =~= old_classes.push(class@));
                self.classes.len() - 1
            },
        }
    }

    /// Adds a class loaded from a class file, replacing the first class with the same
    /// identifier if there is one. Returns the index of the class.
    pub fn add_bytecode_class(&mut self, class: BytecodeClass) -> (r: usize)
        requires
            old(self).wf(),
        ensures
            final(self).wf(),
            bytecode_class_added(old(self)@, class, final(self)@, r),
            final(self).classes@[r as int].methods == class.methods,
    {
        let runtime = RuntimeClass {
            class_identifier: class.class_identifier,
            methods: class.methods,
            static_fields: class.static_fields,
            instance_fields: class.instance_fields,
            super_class: None,
            kind: ClassKind::Plain,
        };
        self.add_class(runtime)
    }

    #[verifier::rlimit(80)]
    #[verifier::spinoff_prover]
    /// The index of the array class `id`, making it (and the array classes of fewer
    /// dimensions it needs) when it does not exist yet; `None` when its component class is
    /// missing.
    pub fn find_array_class(&mut self, id: &ClassIdentifier) -> (r: Option<usize>)
        requires
            old(self).wf(),
        ensures
            final(self).wf(),
            heap_extends(old(self)@, final(self)@),
            r is Some <==> array_class_available(old(self)@, id@),
            r matches Some(k) ==> k < final(self)@.classes.len() && final(self)@.classes[k as int].identifier == id@,
            first_found(final(self)@, id@, r),
            found_unchanged(old(self)@, final(self)@, id@, r),
            r is Some ==> arrays_appended(old(self)@, final(self)@, id@),
            r is Some ==> lower_arrays_present(old(self)@, final(self)@, id@),
            r is None ==> final(self)@ == old(self)@,
        decreases (match id.class_name {
            ClassName::Array { dimensions, .. } => dimensions as int,
            _ => 0,
        }),
    {
        if let Some(k) = self.find_class(id) {
            proof {
                if id@.class_name is Array {
                    assert(self@.classes[k as int].identifier == id@);
                    lemma_lower_arrays_present(self@, self@, self@, id@);
                } else {
                    reveal(lower_arrays_present);
                }
                reveal(found_unchanged);
                reveal(arrays_appended);
                reveal(first_found);
            }
            return Some(k);
        }
        proof {
            reveal(found_unchanged);
            reveal(first_found);
        }
        let (dimensions, name) = match &id.class_name {
            ClassName::Array { dimensions, name } => (*dimensions, name),
            ClassName::Plain(_) => return None,
        };
        let ghost h0 = self@;
        let component: ClassIdentifier = if dimensions > 1 {
            let smaller = ClassIdentifier {
                package: crate::class::clone_strings(&id.package),
                class_name: ClassName::Array { dimensions: dimensions - 1, name: name.clone() },
            };
            assert(smaller@.package == id@.package);
            match self.find_array_class(&smaller) {
                Some(k) => {
                    let c = self.classes[k].class_identifier.clone();
                    assert(c@ == smaller@);
                    c
                },
                None => return None,
            }
        } else if dimensions == 1 {
            match name {
                ArrayName::Class(c) => {
                    let plain = ClassIdentifier {
                        package: crate::class::clone_strings(&id.package),
                        class_name: ClassName::Plain(c.clone()),
                    };
                    match self.find_class(&plain) {
                        Some(k) => {
                            let p = self.classes[k].class_identifier.clone();
                            assert(p@ == plain@);
                            p
                        },
                        None => return None,
                    }
                },
                _ => return None,
            }
        } else {
            return None;
        };
        let kind = ObjectArrayKind::new(component);
        let array = Array::new(kind);
        let array_id = array.class_identifier().clone();
        assert(array_id@ == id@);
        let ghost h1 = self@;
        let class = crate::class::builtin_classes::builtin_class(array_id, Vec::new(), ClassKind::Array(FieldKind::Reference));
        let ghost before = self.classes@;
        proof {
            assert(class@.identifier == id@);
            lemma_absent_after_smaller(h0, h1, id@);
            lemma_distinct_kept(h1.classes, h1, class@);
        }
        self.classes.push(class);
        proof {
            assert(self@.objects == h1.objects);
            assert forall|k: int| 0 <= k < h1.classes.len() implies #[trigger] self@.classes[k]
                == h1.classes[k] by {
                assert(self.classes@[k] == before[k]);
                assert(self@.classes[k] == self.classes@[k]@);
                assert(h1.classes[k] == before[k]@);
            }
            assert forall|k: int| 0 <= k < h1.classes.len() implies #[trigger] self@.codes[k]
                == h1.codes[k] by {
                assert(self.classes@[k] == before[k]);
            }
            assert(classes_kept(h1, self@));
            let last = self@.classes.len() - 1;
            assert(self@.classes[last].identifier == id@);
            lemma_lower_arrays_present(h0, h1, self@, id@);
            assert(self.classes@[last] == class);
            assert(fields_view(class.static_fields@) =~= Seq::empty());
            assert(field_descriptors_view(class.instance_fields@) =~= Seq::empty());
            assert(class.methods@.map_values(|m: Method| signature_of(m)) =~= Seq::empty());
            assert(method_codes(class) =~= Seq::<MethodCode>::empty());
            assert(self@.classes =~= h1.classes.push(reference_array_model(id@)));
            assert(self@.codes =~= h1.codes.push(Seq::<MethodCode>::empty()));
            lemma_arrays_appended_step(h0, h1, self@, id@);
            lemma_appended_found(h0, self@, id@);
        }
        Some(self.classes.len() - 1)
    }
}

} // verus!
