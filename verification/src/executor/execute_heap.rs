//! What the instructions that work on objects, arrays, fields and classes do.
use vstd::prelude::*;

use crate::class::members::{default_value, FieldValue};
use crate::class::{ClassIdentifier, FieldKind};
use crate::classloader::opcode_parser::branch_parts;
use crate::executor::execute::{
    execute_jump, execute_local, execute_return, execute_stack_instruction,
    is_float_instruction, is_jump_instruction, is_local_instruction, is_return_instruction,
    is_stack_instruction, jump_effect, local_effect, pop_int, pop_reference, pop_value,
    push_value, return_effect, stack_effect, top_int, top_reference, top_value, type_error,
    value_kind,
};
use crate::executor::frame_stack::{field_to_stack, stack_depth, StackValue};
use crate::executor::op_code::{ArrayType, Dup, OpCode, SymbolicMethod};
use crate::executor::{Frame, RuntimeError, Update, ValueKind};
use crate::heap::{
    array_id, classes_kept, class_index, ClassKind, Heap, HeapModel, HeapObject, MethodSignature,
    ObjectData, ObjectDataModel,
};

verus! {

// ---------------------------------------------------------------------------------------------
// Objects

/// The object that a reference denotes.
pub open spec fn object_at(h: HeapModel, r: Option<usize>) -> Result<
    (usize, ObjectDataModel),
    RuntimeError,
> {
    match r {
        None => Err(RuntimeError::NullPointer),
        Some(i) => if i < h.objects.len() {
            Ok(h.objects[i as int])
        } else {
            Err(RuntimeError::InvalidReference(i))
        },
    }
}

/// Looks up the object a reference denotes.
fn object_index(heap: &Heap, r: Option<usize>) -> (res: Result<usize, RuntimeError>)
    ensures
        match object_at(heap@, r) {
            Ok(_) => res == Ok::<usize, RuntimeError>(r->0) && r->0 < heap.objects@.len(),
            Err(e) => res == Err::<usize, RuntimeError>(e),
        },
{
    match r {
        None => Err(RuntimeError::NullPointer),
        Some(i) => if i < heap.objects.len() {
            Ok(i)
        } else {
            Err(RuntimeError::InvalidReference(i))
        },
    }
}

/// Adds an object; returns its index.
fn add_object(heap: &mut Heap, object: HeapObject) -> (r: usize)
    requires
        old(heap).wf(),
        object.class < old(heap).classes@.len(),
    ensures
        final(heap).wf(),
        final(heap)@.classes == old(heap)@.classes,
        final(heap)@.codes == old(heap)@.codes,
        final(heap)@.objects == old(heap)@.objects.push(object@),
        r == old(heap)@.objects.len(),
{
    let ghost before = heap@.objects;
    heap.objects.push(object);
    assert(heap@.objects =~= before.push(object@));
    heap.objects.len() - 1
}

// ---------------------------------------------------------------------------------------------
// Arrays

/// The element kind of the arrays that `newarray` makes.
pub open spec fn array_type_kind(t: ArrayType) -> FieldKind {
    match t {
        ArrayType::Boolean => FieldKind::Boolean,
        ArrayType::Char => FieldKind::Char,
        ArrayType::Float => FieldKind::Float,
        ArrayType::Double => FieldKind::Double,
        ArrayType::Byte => FieldKind::Byte,
        ArrayType::Short => FieldKind::Short,
        ArrayType::Int => FieldKind::Int,
        ArrayType::Long => FieldKind::Long,
    }
}

/// The first class whose instances are arrays of the given element kind and that has one
/// dimension of a primitive type.
pub open spec fn primitive_array_class(h: HeapModel, element: FieldKind) -> Option<int> {
    if exists|k: int| 0 <= k < h.classes.len() && #[trigger] h.classes[k].kind == ClassKind::Array(element) {
        Some(
            choose|k: int|
                0 <= k < h.classes.len() && #[trigger] h.classes[k].kind == ClassKind::Array(
                    element,
                ) && forall|j: int|
                    0 <= j < k ==> h.classes[j].kind != ClassKind::Array(element),
        )
    } else {
        None
    }
}

/// The first class of the given kind.
fn class_of_kind(heap: &Heap, kind: ClassKind) -> (r: Option<usize>)
    ensures
        r is Some <==> exists|k: int|
            0 <= k < heap@.classes.len() && #[trigger] heap@.classes[k].kind == kind,
        r matches Some(k) ==> k < heap@.classes.len() && heap@.classes[k as int].kind == kind
            && forall|j: int| 0 <= j < k ==> heap@.classes[j].kind != kind,
{
    let mut k: usize = 0;
    while k < heap.classes.len()
        invariant
            k <= heap@.classes.len(),
            heap@.classes.len() == heap.classes@.len(),
            forall|j: int| 0 <= j < k ==> heap@.classes[j].kind != kind,
        decreases heap.classes@.len() - k,
    {
        assert(heap@.classes[k as int].kind == heap.classes@[k as int].kind);
        if heap.classes[k].kind == kind {
            return Some(k);
        }
        k = k + 1;
    }
    None
}

/// A new array: `length` elements with the default value of `element`.
pub open spec fn new_array_data(element: FieldKind, length: nat) -> ObjectDataModel {
    ObjectDataModel::Array {
        element,
        values: Seq::new(length, |i: int| default_value(element)),
    }
}

/// Makes the elements of a new array.
fn default_values(element: FieldKind, length: usize) -> (r: Vec<FieldValue>)
    ensures
        r@ == Seq::new(length as nat, |i: int| default_value(element)),
{
    let d = FieldValue::default_for(element);
    let mut values: Vec<FieldValue> = Vec::new();
    let mut i: usize = 0;
    while i < length
        invariant
            i <= length,
            d == default_value(element),
            values@ == Seq::new(i as nat, |j: int| default_value(element)),
        decreases length - i,
    {
        values.push(d);
        i = i + 1;
        assert(values@ =~= Seq::new(i as nat, |j: int| default_value(element)));
    }
    values
}

/// The heap and operand stack after `newarray`.
pub open spec fn new_array_effect(t: ArrayType, h: HeapModel, s: Seq<StackValue>) -> Result<
    (HeapModel, Seq<StackValue>),
    RuntimeError,
> {
    match top_int(s) {
        Err(e) => Err(e),
        Ok(size) => if size < 0 {
            Err(RuntimeError::NegativeArraySize(size))
        } else {
            match primitive_array_class(h, array_type_kind(t)) {
                None => Err(RuntimeError::ClassNotFound),
                Some(c) => Ok(
                    (
                        HeapModel {
                            classes: h.classes,
                            codes: h.codes,
                            objects: h.objects.push(
                                (c as usize, new_array_data(array_type_kind(t), size as nat)),
                            ),
                        },
                        s.drop_last().push(StackValue::Reference(Some(h.objects.len() as usize))),
                    ),
                ),
            }
        },
    }
}

/// The element kind of the arrays that `newarray` makes.
fn element_kind_of(t: ArrayType) -> (r: FieldKind)
    ensures
        r == array_type_kind(t),
{
    match t {
        ArrayType::Boolean => FieldKind::Boolean,
        ArrayType::Char => FieldKind::Char,
        ArrayType::Float => FieldKind::Float,
        ArrayType::Double => FieldKind::Double,
        ArrayType::Byte => FieldKind::Byte,
        ArrayType::Short => FieldKind::Short,
        ArrayType::Int => FieldKind::Int,
        ArrayType::Long => FieldKind::Long,
    }
}

/// Runs `newarray`: makes an array of a primitive type with the length on the stack.
pub fn execute_new_array(t: ArrayType, frame: &mut Frame, heap: &mut Heap) -> (r: Result<
    Update,
    RuntimeError,
>)
    requires
        old(frame).wf(),
        old(heap).wf(),
    ensures
        final(frame).wf(),
        final(heap).wf(),
        final(frame).operand_stack.capacity() == old(frame).operand_stack.capacity(),
        final(frame).local_variables@ == old(frame).local_variables@,
        match new_array_effect(t, old(heap)@, old(frame).operand_stack@) {
            Ok((h, s)) => if stack_depth(s) <= old(frame).operand_stack.capacity() {
                r == Ok::<Update, RuntimeError>(Update::Continue) && final(heap)@ == h && final(frame).operand_stack@ == s
            } else {
                r == Err::<Update, RuntimeError>(RuntimeError::StackOverflow)
            },
            Err(e) => r == Err::<Update, RuntimeError>(e),
        },
{
    let size = match pop_int(frame) {
        Ok(v) => v,
        Err(e) => return Err(e),
    };
    if size < 0 {
        return Err(RuntimeError::NegativeArraySize(size));
    }
    let element = element_kind_of(t);
    let class = match class_of_kind(heap, ClassKind::Array(element)) {
        Some(c) => c,
        None => return Err(RuntimeError::ClassNotFound),
    };
    let values = default_values(element, size as usize);
    let index = add_object(heap, HeapObject { class, data: ObjectData::Array { element, values } });
    match push_value(frame, StackValue::Reference(Some(index))) {
        Ok(()) => Ok(Update::Continue),
        Err(e) => Err(e),
    }
}

/// The heap after a new array of `length` default elements of kind `element` was made, or
/// `None` where it has no class for such arrays.
pub open spec fn allocated_array(h: HeapModel, element: FieldKind, length: nat) -> Option<HeapModel> {
    match primitive_array_class(h, element) {
        None => None,
        Some(c) => Some(
            HeapModel {
                classes: h.classes,
                codes: h.codes,
                objects: h.objects.push((c as usize, new_array_data(element, length))),
            },
        ),
    }
}

impl Heap {
    /// Makes a string object that holds `string` and returns its reference; `None` where the
    /// heap has no string class.
    pub fn new_string(&mut self, string: String) -> (r: Option<usize>)
        requires
            old(self).wf(),
        ensures
            final(self).wf(),
            match string_class(old(self)@) {
                None => r is None && final(self)@ == old(self)@,
                Some(c) => r == Some(old(self)@.objects.len() as usize) && final(self)@ == HeapModel {
                    classes: old(self)@.classes,
                    codes: old(self)@.codes,
                    objects: old(self)@.objects.push((c as usize, ObjectDataModel::Text(string@))),
                },
            },
    {
        match class_of_kind(self, ClassKind::Text) {
            Some(c) => Some(add_object(self, HeapObject { class: c, data: ObjectData::Text(string) })),
            None => None,
        }
    }

    /// Makes an array of `length` default elements of kind `element`.
    fn new_array_of(&mut self, element: FieldKind, length: usize) -> (r: Option<usize>)
        requires
            old(self).wf(),
        ensures
            final(self).wf(),
            match allocated_array(old(self)@, element, length as nat) {
                None => r is None && final(self)@ == old(self)@,
                Some(h) => r == Some(old(self)@.objects.len() as usize) && final(self)@ == h,
            },
    {
        match class_of_kind(self, ClassKind::Array(element)) {
            Some(c) => {
                let values = default_values(element, length);
                Some(add_object(self, HeapObject { class: c, data: ObjectData::Array { element, values } }))
            },
            None => None,
        }
    }

    /// Makes a `boolean[]` of `length` elements, all `false`.
    pub fn new_boolean_array(&mut self, length: usize) -> (r: Option<usize>)
        requires
            old(self).wf(),
        ensures
            final(self).wf(),
            match allocated_array(old(self)@, FieldKind::Boolean, length as nat) {
                None => r is None && final(self)@ == old(self)@,
                Some(h) => r == Some(old(self)@.objects.len() as usize) && final(self)@ == h,
            },
    {
        self.new_array_of(FieldKind::Boolean, length)
    }

    /// Makes a `byte[]` of `length` elements, all zero.
    pub fn new_byte_array(&mut self, length: usize) -> (r: Option<usize>)
        requires
            old(self).wf(),
        ensures
            final(self).wf(),
            match allocated_array(old(self)@, FieldKind::Byte, length as nat) {
                None => r is None && final(self)@ == old(self)@,
                Some(h) => r == Some(old(self)@.objects.len() as usize) && final(self)@ == h,
            },
    {
        self.new_array_of(FieldKind::Byte, length)
    }

    /// Makes a `char[]` of `length` elements, all zero.
    pub fn new_char_array(&mut self, length: usize) -> (r: Option<usize>)
        requires
            old(self).wf(),
        ensures
            final(self).wf(),
            match allocated_array(old(self)@, FieldKind::Char, length as nat) {
                None => r is None && final(self)@ == old(self)@,
                Some(h) => r == Some(old(self)@.objects.len() as usize) && final(self)@ == h,
            },
    {
        self.new_array_of(FieldKind::Char, length)
    }

    /// Makes a `double[]` of `length` elements, all zero.
    pub fn new_double_array(&mut self, length: usize) -> (r: Option<usize>)
        requires
            old(self).wf(),
        ensures
            final(self).wf(),
            match allocated_array(old(self)@, FieldKind::Double, length as nat) {
                None => r is None && final(self)@ == old(self)@,
                Some(h) => r == Some(old(self)@.objects.len() as usize) && final(self)@ == h,
            },
    {
        self.new_array_of(FieldKind::Double, length)
    }

    /// Makes a `float[]` of `length` elements, all zero.
    pub fn new_float_array(&mut self, length: usize) -> (r: Option<usize>)
        requires
            old(self).wf(),
        ensures
            final(self).wf(),
            match allocated_array(old(self)@, FieldKind::Float, length as nat) {
                None => r is None && final(self)@ == old(self)@,
                Some(h) => r == Some(old(self)@.objects.len() as usize) && final(self)@ == h,
            },
    {
        self.new_array_of(FieldKind::Float, length)
    }

    /// Makes a `long[]` of `length` elements, all zero.
    pub fn new_long_array(&mut self, length: usize) -> (r: Option<usize>)
        requires
            old(self).wf(),
        ensures
            final(self).wf(),
            match allocated_array(old(self)@, FieldKind::Long, length as nat) {
                None => r is None && final(self)@ == old(self)@,
                Some(h) => r == Some(old(self)@.objects.len() as usize) && final(self)@ == h,
            },
    {
        self.new_array_of(FieldKind::Long, length)
    }

    /// Makes an `int[]` of `length` elements, all zero.
    pub fn new_int_array(&mut self, length: usize) -> (r: Option<usize>)
        requires
            old(self).wf(),
        ensures
            final(self).wf(),
            match allocated_array(old(self)@, FieldKind::Int, length as nat) {
                None => r is None && final(self)@ == old(self)@,
                Some(h) => r == Some(old(self)@.objects.len() as usize) && final(self)@ == h,
            },
    {
        self.new_array_of(FieldKind::Int, length)
    }

    /// Makes a `short[]` of `length` elements, all zero.
    pub fn new_short_array(&mut self, length: usize) -> (r: Option<usize>)
        requires
            old(self).wf(),
        ensures
            final(self).wf(),
            match allocated_array(old(self)@, FieldKind::Short, length as nat) {
                None => r is None && final(self)@ == old(self)@,
                Some(h) => r == Some(old(self)@.objects.len() as usize) && final(self)@ == h,
            },
    {
        self.new_array_of(FieldKind::Short, length)
    }
}

/// The heap and operand stack after `anewarray` with the array class `id`: the classes
/// may have grown by the array classes it needed, and the new array is the last object.
pub open spec fn new_object_array_effect(
    id: crate::class::ClassIdentifierModel,
    h: HeapModel,
    s: Seq<StackValue>,
    h2: HeapModel,
    s2: Seq<StackValue>,
) -> bool {
    &&& h2.classes.len() >= h.classes.len()
    &&& forall|k: int| 0 <= k < h.classes.len() ==> #[trigger] h2.classes[k] == h.classes[k]
    &&& s2 == s.drop_last().push(StackValue::Reference(Some(h.objects.len() as usize)))
    &&& exists|c: int|
        0 <= c < h2.classes.len() && #[trigger] h2.classes[c].identifier == id && h2.objects
            == h.objects.push(
            (c as usize, new_array_data(FieldKind::Reference, top_int(s)->Ok_0 as nat)),
        )
}

/// Runs `anewarray`: makes an array of references of the array class `id` with the length
/// on the stack, making the array class when it does not exist yet.
pub fn execute_new_object_array(id: &ClassIdentifier, frame: &mut Frame, heap: &mut Heap) -> (r:
    Result<Update, RuntimeError>)
    requires
        old(frame).wf(),
        old(heap).wf(),
    ensures
        final(frame).wf(),
        final(heap).wf(),
        final(frame).operand_stack.capacity() == old(frame).operand_stack.capacity(),
        final(frame).local_variables@ == old(frame).local_variables@,
        match top_int(old(frame).operand_stack@) {
            Err(e) => r == Err::<Update, RuntimeError>(e),
            Ok(size) => if size < 0 {
                r == Err::<Update, RuntimeError>(RuntimeError::NegativeArraySize(size))
            } else if !crate::heap::array_class_available(old(heap)@, id@) {
                r == Err::<Update, RuntimeError>(RuntimeError::ClassNotFound)
            } else if stack_depth(
                old(frame).operand_stack@.drop_last().push(StackValue::Reference(Some(0))),
            ) > old(frame).operand_stack.capacity() {
                r == Err::<Update, RuntimeError>(RuntimeError::StackOverflow)
            } else {
                r == Ok::<Update, RuntimeError>(Update::Continue) && new_object_array_effect(
                    id@,
                    old(heap)@,
                    old(frame).operand_stack@,
                    final(heap)@,
                    final(frame).operand_stack@,
                )
            },
        },
{
    let ghost s0 = frame.operand_stack@;
    let ghost h0 = heap@;
    let size = match pop_int(frame) {
        Ok(v) => v,
        Err(e) => return Err(e),
    };
    if size < 0 {
        return Err(RuntimeError::NegativeArraySize(size));
    }
    let class = match heap.find_array_class(id) {
        Some(c) => c,
        None => return Err(RuntimeError::ClassNotFound),
    };
    let values = default_values(FieldKind::Reference, size as usize);
    let index = add_object(
        heap,
        HeapObject { class, data: ObjectData::Array { element: FieldKind::Reference, values } },
    );
    proof {
        assert(stack_depth(frame.operand_stack@.push(StackValue::Reference(Some(index)))) == stack_depth(
            frame.operand_stack@.push(StackValue::Reference(Some(0))),
        )) by {
            crate::executor::frame_stack::lemma_push_then_pop(
                frame.operand_stack@,
                StackValue::Reference(Some(index)),
            );
            crate::executor::frame_stack::lemma_push_then_pop(
                frame.operand_stack@,
                StackValue::Reference(Some(0)),
            );
        }
        assert(heap@.classes[class as int].identifier == id@);
    }
    match push_value(frame, StackValue::Reference(Some(index))) {
        Ok(()) => Ok(Update::Continue),
        Err(e) => Err(e),
    }
}

/// Whether an array with elements of kind `element` can be read or written by `op`.
pub open spec fn array_access_accepts(op: OpCode, element: FieldKind) -> bool {
    match op {
        OpCode::Baload | OpCode::Bastore => element == FieldKind::Byte || element
            == FieldKind::Boolean,
        OpCode::Caload | OpCode::Castore => element == FieldKind::Char,
        OpCode::Saload | OpCode::Sastore => element == FieldKind::Short,
        OpCode::Iaload | OpCode::Iastore => element == FieldKind::Int,
        OpCode::Laload | OpCode::Lastore => element == FieldKind::Long,
        OpCode::Faload | OpCode::Fastore => element == FieldKind::Float,
        OpCode::Daload | OpCode::Dastore => element == FieldKind::Double,
        _ => element == FieldKind::Reference,
    }
}

/// Whether an instruction loads an array element.
pub open spec fn is_array_load(op: OpCode) -> bool {
    match op {
        OpCode::Aaload | OpCode::Baload | OpCode::Caload | OpCode::Saload | OpCode::Iaload
        | OpCode::Laload | OpCode::Faload | OpCode::Daload => true,
        _ => false,
    }
}

/// Whether an instruction stores an array element.
pub open spec fn is_array_store(op: OpCode) -> bool {
    match op {
        OpCode::Aastore | OpCode::Bastore | OpCode::Castore | OpCode::Sastore | OpCode::Iastore
        | OpCode::Lastore | OpCode::Fastore | OpCode::Dastore => true,
        _ => false,
    }
}

/// The array an array access works on, checked against the instruction and the index.
pub open spec fn accessed_array(op: OpCode, h: HeapModel, r: Option<usize>, index: i32) -> Result<
    (usize, Seq<FieldValue>, FieldKind),
    RuntimeError,
> {
    match object_at(h, r) {
        Err(e) => Err(e),
        Ok((_, ObjectDataModel::Array { element, values })) => if !array_access_accepts(
            op,
            element,
        ) {
            Err(RuntimeError::WrongArrayType)
        } else if index < 0 || index >= values.len() {
            Err(RuntimeError::ArrayIndexOutOfBounds { length: values.len() as usize, index })
        } else {
            Ok((r->0, values, element))
        },
        Ok(_) => Err(RuntimeError::InvalidType { expected: ValueKind::Array, actual: ValueKind::Object }),
    }
}

/// The operand stack after an array load.
pub open spec fn array_load_effect(op: OpCode, h: HeapModel, s: Seq<StackValue>) -> Result<
    Seq<StackValue>,
    RuntimeError,
> {
    match top_int(s) {
        Err(e) => Err(e),
        Ok(index) => match top_reference(s.drop_last()) {
            Err(e) => Err(e),
            Ok(r) => match accessed_array(op, h, r, index) {
                Err(e) => Err(e),
                Ok((_, values, _)) => Ok(
                    s.drop_last().drop_last().push(field_to_stack(values[index as int])),
                ),
            },
        },
    }
}

/// Checks the array an access works on; returns the object index.
fn check_array(op: &OpCode, heap: &Heap, r: Option<usize>, index: i32) -> (res: Result<
    usize,
    RuntimeError,
>)
    ensures
        match accessed_array(*op, heap@, r, index) {
            Ok((i, _, _)) => res == Ok::<usize, RuntimeError>(i) && i < heap.objects@.len(),
            Err(e) => res == Err::<usize, RuntimeError>(e),
        },
{
    let i = match object_index(heap, r) {
        Ok(i) => i,
        Err(e) => return Err(e),
    };
    assert(heap@.objects[i as int] == heap.objects@[i as int]@);
    match &heap.objects[i].data {
        ObjectData::Array { element, values } => {
            let accepts = match op {
                OpCode::Baload | OpCode::Bastore => *element == FieldKind::Byte || *element
                    == FieldKind::Boolean,
                OpCode::Caload | OpCode::Castore => *element == FieldKind::Char,
                OpCode::Saload | OpCode::Sastore => *element == FieldKind::Short,
                OpCode::Iaload | OpCode::Iastore => *element == FieldKind::Int,
                OpCode::Laload | OpCode::Lastore => *element == FieldKind::Long,
                OpCode::Faload | OpCode::Fastore => *element == FieldKind::Float,
                OpCode::Daload | OpCode::Dastore => *element == FieldKind::Double,
                _ => *element == FieldKind::Reference,
            };
            if !accepts {
                return Err(RuntimeError::WrongArrayType);
            }
            if index < 0 || index as usize >= values.len() {
                return Err(RuntimeError::ArrayIndexOutOfBounds { length: values.len(), index });
            }
            Ok(i)
        },
        _ => Err(RuntimeError::InvalidType { expected: ValueKind::Array, actual: ValueKind::Object }),
    }
}

/// Runs an array load.
pub fn execute_array_load(op: &OpCode, frame: &mut Frame, heap: &Heap) -> (r: Result<
    Update,
    RuntimeError,
>)
    requires
        old(frame).wf(),
        is_array_load(*op),
    ensures
        final(frame).wf(),
        final(frame).operand_stack.capacity() == old(frame).operand_stack.capacity(),
        final(frame).local_variables@ == old(frame).local_variables@,
        match array_load_effect(*op, heap@, old(frame).operand_stack@) {
            Ok(s) => if stack_depth(s) <= old(frame).operand_stack.capacity() {
                r == Ok::<Update, RuntimeError>(Update::Continue) && final(frame).operand_stack@
                    == s
            } else {
                r == Err::<Update, RuntimeError>(RuntimeError::StackOverflow)
            },
            Err(e) => r == Err::<Update, RuntimeError>(e),
        },
{
    let index = match pop_int(frame) {
        Ok(v) => v,
        Err(e) => return Err(e),
    };
    let array = match pop_reference(frame) {
        Ok(v) => v,
        Err(e) => return Err(e),
    };
    let i = match check_array(op, heap, array, index) {
        Ok(i) => i,
        Err(e) => return Err(e),
    };
    let value = match &heap.objects[i].data {
        ObjectData::Array { values, .. } => values[index as usize],
        _ => FieldValue::Int(0),
    };
    match push_value(frame, StackValue::from_field_value(value)) {
        Ok(()) => Ok(Update::Continue),
        Err(e) => Err(e),
    }
}

/// The element that a store writes into an array of kind `element`: the value must be of
/// the kind the instruction stores, and small integral values must fit. A boolean array
/// stores 1 for the int 1 and 0 for every other int.
pub open spec fn stored_element(op: OpCode, element: FieldKind, v: StackValue) -> Result<
    FieldValue,
    RuntimeError,
> {
    match op {
        OpCode::Aastore => match v {
            StackValue::Reference(r) => Ok(FieldValue::Reference(r)),
            _ => Err(type_error(ValueKind::Reference, v)),
        },
        OpCode::Lastore => match v {
            StackValue::Long(l) => Ok(FieldValue::Long(l)),
            _ => Err(type_error(ValueKind::Long, v)),
        },
        OpCode::Fastore => match v {
            StackValue::Float(f) => Ok(FieldValue::Float(f)),
            _ => Err(type_error(ValueKind::Float, v)),
        },
        OpCode::Dastore => match v {
            StackValue::Double(d) => Ok(FieldValue::Double(d)),
            _ => Err(type_error(ValueKind::Double, v)),
        },
        _ => match v {
            StackValue::Int(i) => narrowed_int(op, element, i),
            _ => Err(type_error(ValueKind::Int, v)),
        },
    }
}

/// An array access checks its index against the array's length: loading element `i` of the
/// array `k` pushes that element (widened as a field is) when `0 <= i < length`, and fails
/// with the length and the index otherwise; a `null` array is a null pointer.
pub proof fn lemma_array_load_bounds(op: OpCode, h: HeapModel, s: Seq<StackValue>, k: usize, i: i32)
    requires
        is_array_load(op),
        k < h.objects.len(),
        h.objects[k as int].1 is Array,
        array_access_accepts(op, (h.objects[k as int].1)->Array_element),
    ensures
        ({
            let values = (h.objects[k as int].1)->Array_values;
            let before = s.push(StackValue::Reference(Some(k))).push(StackValue::Int(i));
            &&& 0 <= i < values.len() ==> array_load_effect(op, h, before) == Ok::<
                Seq<StackValue>,
                RuntimeError,
            >(s.push(field_to_stack(values[i as int])))
            &&& !(0 <= i < values.len()) ==> array_load_effect(op, h, before) == Err::<
                Seq<StackValue>,
                RuntimeError,
            >(RuntimeError::ArrayIndexOutOfBounds { length: values.len() as usize, index: i })
        }),
        array_load_effect(op, h, s.push(StackValue::Reference(None)).push(StackValue::Int(i))) == Err::<
            Seq<StackValue>,
            RuntimeError,
        >(RuntimeError::NullPointer),
{
    let before = s.push(StackValue::Reference(Some(k))).push(StackValue::Int(i));
    assert(before.drop_last() =~= s.push(StackValue::Reference(Some(k))));
    assert(before.drop_last().drop_last() =~= s);
    let nb = s.push(StackValue::Reference(None)).push(StackValue::Int(i));
    assert(nb.drop_last() =~= s.push(StackValue::Reference(None)));
}

/// Reading an int array after writing it: the element written is read back, and every other
/// element is what it was.
pub proof fn lemma_int_array_store_then_load(
    h: HeapModel,
    s: Seq<StackValue>,
    k: usize,
    i: i32,
    j: i32,
    v: i32,
)
    requires
        k < h.objects.len(),
        h.objects[k as int].1 is Array,
        (h.objects[k as int].1)->Array_element == FieldKind::Int,
        0 <= i < (h.objects[k as int].1)->Array_values.len(),
        0 <= j < (h.objects[k as int].1)->Array_values.len(),
    ensures
        array_store_effect(
            OpCode::Iastore,
            h,
            s.push(StackValue::Reference(Some(k))).push(StackValue::Int(i)).push(StackValue::Int(v)),
        ) matches Ok(h2) && array_load_effect(
            OpCode::Iaload,
            h2,
            s.push(StackValue::Reference(Some(k))).push(StackValue::Int(j)),
        ) == Ok::<Seq<StackValue>, RuntimeError>(
            s.push(
                if i == j {
                    StackValue::Int(v)
                } else {
                    field_to_stack((h.objects[k as int].1)->Array_values[j as int])
                },
            ),
        ),
{
    let r = s.push(StackValue::Reference(Some(k)));
    let w = r.push(StackValue::Int(i)).push(StackValue::Int(v));
    assert(w.drop_last() =~= r.push(StackValue::Int(i)));
    assert(w.drop_last().drop_last() =~= r);
    assert(r.drop_last() =~= s);
    let before = r.push(StackValue::Int(j));
    assert(before.drop_last() =~= r);
    let values = (h.objects[k as int].1)->Array_values;
    let h2 = array_store_effect(OpCode::Iastore, h, w)->Ok_0;
    assert(h2.objects[k as int].1 == ObjectDataModel::Array {
        element: FieldKind::Int,
        values: values.update(i as int, FieldValue::Int(v)),
    });
}

/// The element an int becomes in an array of kind `element`.
pub open spec fn narrowed_int(op: OpCode, element: FieldKind, i: i32) -> Result<FieldValue, RuntimeError> {
    match op {
        OpCode::Iastore => Ok(FieldValue::Int(i)),
        OpCode::Castore => if 0 <= i <= 0xffff {
            Ok(FieldValue::Char(i as u16))
        } else {
            Err(RuntimeError::ValueOutOfRange(i))
        },
        OpCode::Sastore => if -0x8000 <= i <= 0x7fff {
            Ok(FieldValue::Short(i as i16))
        } else {
            Err(RuntimeError::ValueOutOfRange(i))
        },
        _ => if element == FieldKind::Boolean {
            Ok(FieldValue::Boolean(if i == 1 { 1u8 } else { 0u8 }))
        } else if -0x80 <= i <= 0x7f {
            Ok(FieldValue::Byte(i as i8))
        } else {
            Err(RuntimeError::ValueOutOfRange(i))
        },
    }
}

/// Computes the element a store writes.
fn stored_element_value(op: &OpCode, element: FieldKind, v: StackValue) -> (r: Result<
    FieldValue,
    RuntimeError,
>)
    ensures
        r == stored_element(*op, element, v),
{
    match op {
        OpCode::Aastore => match v {
            StackValue::Reference(r) => Ok(FieldValue::Reference(r)),
            _ => Err(RuntimeError::InvalidType { expected: ValueKind::Reference, actual: value_kind(&v) }),
        },
        OpCode::Lastore => match v {
            StackValue::Long(l) => Ok(FieldValue::Long(l)),
            _ => Err(RuntimeError::InvalidType { expected: ValueKind::Long, actual: value_kind(&v) }),
        },
        OpCode::Fastore => match v {
            StackValue::Float(f) => Ok(FieldValue::Float(f)),
            _ => Err(RuntimeError::InvalidType { expected: ValueKind::Float, actual: value_kind(&v) }),
        },
        OpCode::Dastore => match v {
            StackValue::Double(d) => Ok(FieldValue::Double(d)),
            _ => Err(RuntimeError::InvalidType { expected: ValueKind::Double, actual: value_kind(&v) }),
        },
        _ => match v {
            StackValue::Int(i) => match op {
                OpCode::Iastore => Ok(FieldValue::Int(i)),
                OpCode::Castore => if 0 <= i && i <= 0xffff {
                    Ok(FieldValue::Char(i as u16))
                } else {
                    Err(RuntimeError::ValueOutOfRange(i))
                },
                OpCode::Sastore => if -0x8000 <= i && i <= 0x7fff {
                    Ok(FieldValue::Short(i as i16))
                } else {
                    Err(RuntimeError::ValueOutOfRange(i))
                },
                _ => if element == FieldKind::Boolean {
                    Ok(FieldValue::Boolean(if i == 1 { 1u8 } else { 0u8 }))
                } else if -0x80 <= i && i <= 0x7f {
                    Ok(FieldValue::Byte(i as i8))
                } else {
                    Err(RuntimeError::ValueOutOfRange(i))
                },
            },
            _ => Err(RuntimeError::InvalidType { expected: ValueKind::Int, actual: value_kind(&v) }),
        },
    }
}

/// The heap after an array store (the stack loses the value, the index and the array).
pub open spec fn array_store_effect(op: OpCode, h: HeapModel, s: Seq<StackValue>) -> Result<
    HeapModel,
    RuntimeError,
> {
    match top_value(s) {
        Err(e) => Err(e),
        Ok(v) => match top_int(s.drop_last()) {
            Err(e) => Err(e),
            Ok(index) => match top_reference(s.drop_last().drop_last()) {
                Err(e) => Err(e),
                Ok(r) => match accessed_array(op, h, r, index) {
                    Err(e) => Err(e),
                    Ok((i, values, element)) => match stored_element(op, element, v) {
                        Err(e) => Err(e),
                        Ok(fv) => Ok(
                            HeapModel {
                                classes: h.classes,
                                codes: h.codes,
                                objects: h.objects.update(
                                    i as int,
                                    (
                                        h.objects[i as int].0,
                                        ObjectDataModel::Array {
                                            element,
                                            values: values.update(index as int, fv),
                                        },
                                    ),
                                ),
                            },
                        ),
                    },
                },
            },
        },
    }
}

/// Runs an array store.
pub fn execute_array_store(op: &OpCode, frame: &mut Frame, heap: &mut Heap) -> (r: Result<
    Update,
    RuntimeError,
>)
    requires
        old(frame).wf(),
        old(heap).wf(),
        is_array_store(*op),
    ensures
        final(frame).wf(),
        final(heap).wf(),
        final(frame).operand_stack.capacity() == old(frame).operand_stack.capacity(),
        final(frame).local_variables@ == old(frame).local_variables@,
        match array_store_effect(*op, old(heap)@, old(frame).operand_stack@) {
            Ok(h) => r == Ok::<Update, RuntimeError>(Update::Continue) && final(heap)@ == h && final(frame).operand_stack@ == old(frame).operand_stack@.drop_last().drop_last().drop_last(),
            Err(e) => r == Err::<Update, RuntimeError>(e),
        },
{
    let v = match pop_value(frame) {
        Ok(v) => v,
        Err(e) => return Err(e),
    };
    let index = match pop_int(frame) {
        Ok(v) => v,
        Err(e) => return Err(e),
    };
    let array = match pop_reference(frame) {
        Ok(v) => v,
        Err(e) => return Err(e),
    };
    let i = match check_array(op, heap, array, index) {
        Ok(i) => i,
        Err(e) => return Err(e),
    };
    let ghost h0 = heap@;
    let element = match &heap.objects[i].data {
        ObjectData::Array { element, .. } => *element,
        _ => FieldKind::Int,
    };
    let fv = match stored_element_value(op, element, v) {
        Ok(fv) => fv,
        Err(e) => return Err(e),
    };
    let class = heap.objects[i].class;
    let mut object = HeapObject { class, data: ObjectData::Instance(Vec::new()) };
    let ghost before = heap.objects@;
    proof {
        assert(heap@.objects[i as int] == heap.objects@[i as int]@);
    }
    heap.objects.set_and_swap(i, &mut object);
    let data = match object.data {
        ObjectData::Array { element, values } => {
            let mut values = values;
            values.set(index as usize, fv);
            ObjectData::Array { element, values }
        },
        other => other,
    };
    let mut updated = HeapObject { class, data };
    heap.objects.set_and_swap(i, &mut updated);
    proof {
        assert(heap@.objects =~= h0.objects.update(
            i as int,
            (
                h0.objects[i as int].0,
                ObjectDataModel::Array {
                    element,
                    values: (h0.objects[i as int].1)->Array_values.update(index as int, fv),
                },
            ),
        ));
    }
    Ok(Update::Continue)
}

/// The operand stack after `arraylength`.
pub open spec fn array_length_effect(h: HeapModel, s: Seq<StackValue>) -> Result<
    Seq<StackValue>,
    RuntimeError,
> {
    match top_reference(s) {
        Err(e) => Err(e),
        Ok(r) => match object_at(h, r) {
            Err(e) => Err(e),
            Ok((_, ObjectDataModel::Array { values, .. })) => if values.len() <= i32::MAX {
                Ok(s.drop_last().push(StackValue::Int(values.len() as i32)))
            } else {
                Err(RuntimeError::ArrayTooLong)
            },
            Ok(_) => Err(RuntimeError::InvalidType { expected: ValueKind::Array, actual: ValueKind::Object }),
        },
    }
}

/// Runs `arraylength`.
pub fn execute_array_length(frame: &mut Frame, heap: &Heap) -> (r: Result<Update, RuntimeError>)
    requires
        old(frame).wf(),
    ensures
        final(frame).wf(),
        final(frame).operand_stack.capacity() == old(frame).operand_stack.capacity(),
        final(frame).local_variables@ == old(frame).local_variables@,
        match array_length_effect(heap@, old(frame).operand_stack@) {
            Ok(s) => if stack_depth(s) <= old(frame).operand_stack.capacity() {
                r == Ok::<Update, RuntimeError>(Update::Continue) && final(frame).operand_stack@
                    == s
            } else {
                r == Err::<Update, RuntimeError>(RuntimeError::StackOverflow)
            },
            Err(e) => r == Err::<Update, RuntimeError>(e),
        },
{
    let array = match pop_reference(frame) {
        Ok(v) => v,
        Err(e) => return Err(e),
    };
    let i = match object_index(heap, array) {
        Ok(i) => i,
        Err(e) => return Err(e),
    };
    assert(heap@.objects[i as int] == heap.objects@[i as int]@);
    let length = match &heap.objects[i].data {
        ObjectData::Array { values, .. } => values.len(),
        _ => return Err(
            RuntimeError::InvalidType { expected: ValueKind::Array, actual: ValueKind::Object },
        ),
    };
    if length > i32::MAX as usize {
        return Err(RuntimeError::ArrayTooLong);
    }
    match push_value(frame, StackValue::Int(length as i32)) {
        Ok(()) => Ok(Update::Continue),
        Err(e) => Err(e),
    }
}


// ---------------------------------------------------------------------------------------------
// Fields

/// The index of the first field named `name`.
pub open spec fn first_named<V>(fields: Seq<(Seq<char>, V)>, name: Seq<char>) -> Option<int> {
    if exists|k: int| 0 <= k < fields.len() && #[trigger] fields[k].0 == name {
        Some(
            choose|k: int|
                0 <= k < fields.len() && #[trigger] fields[k].0 == name && forall|j: int|
                    0 <= j < k ==> fields[j].0 != name,
        )
    } else {
        None
    }
}

/// Finds the first field named `name`.
fn find_field(fields: &Vec<crate::class::Field>, name: &str) -> (r: Option<usize>)
    ensures
        r is Some <==> first_named(crate::class::members::fields_view(fields@), name@) is Some,
        r matches Some(k) ==> first_named(crate::class::members::fields_view(fields@), name@)
            == Some(k as int) && k < fields@.len(),
{
    let ghost fv = crate::class::members::fields_view(fields@);
    let mut k: usize = 0;
    while k < fields.len()
        invariant
            k <= fields@.len(),
            fv == crate::class::members::fields_view(fields@),
            forall|j: int| 0 <= j < k ==> fv[j].0 != name@,
        decreases fields@.len() - k,
    {
        if crate::text::str_equal(fields[k].name.as_str(), name) {
            proof {
                assert(fv[k as int].0 == name@);
                let c = choose|c: int|
                    0 <= c < fv.len() && #[trigger] fv[c].0 == name@ && forall|j: int|
                        0 <= j < c ==> fv[j].0 != name@;
                if c < k {
                } else if c > k {
                }
            }
            return Some(k);
        }
        k = k + 1;
    }
    None
}

/// The operand stack after `getstatic`.
pub open spec fn get_static_effect(
    class: crate::class::ClassIdentifierModel,
    name: Seq<char>,
    h: HeapModel,
    s: Seq<StackValue>,
) -> Result<Seq<StackValue>, RuntimeError> {
    match class_index(h, class) {
        None => Err(RuntimeError::ClassNotFound),
        Some(c) => match first_named(h.classes[c].static_fields, name) {
            None => Err(RuntimeError::FieldNotFound),
            Some(k) => Ok(s.push(field_to_stack(h.classes[c].static_fields[k].1))),
        },
    }
}

/// Runs `getstatic`: pushes the value of a static field.
pub fn execute_get_static(
    class: &ClassIdentifier,
    name: &String,
    frame: &mut Frame,
    heap: &Heap,
) -> (r: Result<Update, RuntimeError>)
    requires
        old(frame).wf(),
    ensures
        final(frame).wf(),
        final(frame).operand_stack.capacity() == old(frame).operand_stack.capacity(),
        final(frame).local_variables@ == old(frame).local_variables@,
        match get_static_effect(class@, name@, heap@, old(frame).operand_stack@) {
            Ok(s) => if stack_depth(s) <= old(frame).operand_stack.capacity() {
                r == Ok::<Update, RuntimeError>(Update::Continue) && final(frame).operand_stack@
                    == s
            } else {
                r == Err::<Update, RuntimeError>(RuntimeError::StackOverflow)
            },
            Err(e) => r == Err::<Update, RuntimeError>(e),
        },
{
    let c = match heap.find_class(class) {
        Some(c) => c,
        None => return Err(RuntimeError::ClassNotFound),
    };
    let fields = &heap.classes[c].static_fields;
    assert(heap@.classes[c as int].static_fields == crate::class::members::fields_view(fields@));
    let k = match find_field(fields, name.as_str()) {
        Some(k) => k,
        None => return Err(RuntimeError::FieldNotFound),
    };
    assert(crate::class::members::fields_view(fields@)[k as int] == fields@[k as int]@);
    let value = StackValue::from_field_value(fields[k].value);
    match push_value(frame, value) {
        Ok(()) => Ok(Update::Continue),
        Err(e) => Err(e),
    }
}

/// The instance field that `getfield` and `putfield` address: the object must be an
/// instance of exactly the named class, and have a field of that name.
pub open spec fn addressed_field(
    class: crate::class::ClassIdentifierModel,
    name: Seq<char>,
    h: HeapModel,
    r: Option<usize>,
) -> Result<(usize, Seq<(Seq<char>, FieldValue)>, int), RuntimeError> {
    match object_at(h, r) {
        Err(e) => Err(e),
        Ok((c, ObjectDataModel::Instance(fields))) => if h.classes[c as int].identifier == class {
            match first_named(fields, name) {
                Some(k) => Ok((r->0, fields, k)),
                None => Err(RuntimeError::FieldNotFound),
            }
        } else {
            Err(RuntimeError::FieldNotFound)
        },
        Ok(_) => Err(RuntimeError::FieldNotFound),
    }
}

/// Finds the instance field that `getfield` and `putfield` address.
fn find_instance_field(
    class: &ClassIdentifier,
    name: &String,
    heap: &Heap,
    r: Option<usize>,
) -> (res: Result<(usize, usize), RuntimeError>)
    requires
        heap.wf(),
    ensures
        res is Ok <==> addressed_field(class@, name@, heap@, r) is Ok,
        res matches Err(e) ==> addressed_field(class@, name@, heap@, r) == Err::<
            (usize, Seq<(Seq<char>, FieldValue)>, int),
            RuntimeError,
        >(e),
        res matches Ok((i, k)) ==> {
            &&& i < heap.objects@.len()
            &&& heap@.objects[i as int].1 is Instance
            &&& k < (heap@.objects[i as int].1)->Instance_0.len()
            &&& addressed_field(class@, name@, heap@, r) == Ok::<
                (usize, Seq<(Seq<char>, FieldValue)>, int),
                RuntimeError,
            >((i, (heap@.objects[i as int].1)->Instance_0, k as int))
        },
{
    let i = match object_index(heap, r) {
        Ok(i) => i,
        Err(e) => return Err(e),
    };
    assert(heap@.objects[i as int] == heap.objects@[i as int]@);
    let c = heap.objects[i].class;
    assert(heap@.classes[c as int] == heap.classes@[c as int]@);
    match &heap.objects[i].data {
        ObjectData::Instance(fields) => {
            if !heap.classes[c].class_identifier.equals(class) {
                return Err(RuntimeError::FieldNotFound);
            }
            match find_field(fields, name.as_str()) {
                Some(k) => Ok((i, k)),
                None => Err(RuntimeError::FieldNotFound),
            }
        },
        _ => Err(RuntimeError::FieldNotFound),
    }
}

/// The value of field `k` of instance `i`.
fn instance_field_value(heap: &Heap, i: usize, k: usize) -> (v: FieldValue)
    requires
        i < heap.objects@.len(),
        heap@.objects[i as int].1 is Instance,
        k < (heap@.objects[i as int].1)->Instance_0.len(),
    ensures
        v == (heap@.objects[i as int].1)->Instance_0[k as int].1,
{
    assert(heap@.objects[i as int] == heap.objects@[i as int]@);
    match &heap.objects[i].data {
        ObjectData::Instance(fields) => {
            assert(crate::class::members::fields_view(fields@)[k as int] == fields@[k as int]@);
            fields[k].value
        },
        _ => FieldValue::Int(0),
    }
}

/// Writes `value` into field `k` of instance `i`, keeping the field's name.
fn set_instance_field(heap: &mut Heap, i: usize, k: usize, value: FieldValue)
    requires
        old(heap).wf(),
        i < old(heap).objects@.len(),
        old(heap)@.objects[i as int].1 is Instance,
        k < (old(heap)@.objects[i as int].1)->Instance_0.len(),
    ensures
        final(heap).wf(),
        final(heap)@.classes == old(heap)@.classes,
        final(heap)@.codes == old(heap)@.codes,
        final(heap)@.objects == old(heap)@.objects.update(
            i as int,
            (
                old(heap)@.objects[i as int].0,
                ObjectDataModel::Instance(
                    (old(heap)@.objects[i as int].1)->Instance_0.update(
                        k as int,
                        ((old(heap)@.objects[i as int].1)->Instance_0[k as int].0, value),
                    ),
                ),
            ),
        ),
{
    let ghost h0 = heap@;
    let class = heap.objects[i].class;
    let mut taken = HeapObject { class, data: ObjectData::Instance(Vec::new()) };
    proof {
        assert(heap@.objects[i as int] == heap.objects@[i as int]@);
    }
    heap.objects.set_and_swap(i, &mut taken);
    let data = match taken.data {
        ObjectData::Instance(fields) => {
            let mut fields = fields;
            let field_name = fields[k].name.clone();
            let ghost before = crate::class::members::fields_view(fields@);
            fields.set(k, crate::class::Field { name: field_name, value });
            assert(crate::class::members::fields_view(fields@) =~= before.update(
                k as int,
                (before[k as int].0, value),
            ));
            ObjectData::Instance(fields)
        },
        other => other,
    };
    let mut updated = HeapObject { class, data };
    heap.objects.set_and_swap(i, &mut updated);
    proof {
        assert(heap@.objects =~= h0.objects.update(
            i as int,
            (
                h0.objects[i as int].0,
                ObjectDataModel::Instance(
                    (h0.objects[i as int].1)->Instance_0.update(
                        k as int,
                        ((h0.objects[i as int].1)->Instance_0[k as int].0, value),
                    ),
                ),
            ),
        ));
    }
}

/// The operand stack after `getfield`.
pub open spec fn get_field_effect(
    class: crate::class::ClassIdentifierModel,
    name: Seq<char>,
    h: HeapModel,
    s: Seq<StackValue>,
) -> Result<Seq<StackValue>, RuntimeError> {
    match top_reference(s) {
        Err(e) => Err(e),
        Ok(r) => match addressed_field(class, name, h, r) {
            Err(e) => Err(e),
            Ok((_, fields, k)) => Ok(s.drop_last().push(field_to_stack(fields[k].1))),
        },
    }
}

/// Runs `getfield`: replaces an object reference by the value of one of its fields.
pub fn execute_get_field(
    class: &ClassIdentifier,
    name: &String,
    frame: &mut Frame,
    heap: &Heap,
) -> (r: Result<Update, RuntimeError>)
    requires
        old(frame).wf(),
        heap.wf(),
    ensures
        final(frame).wf(),
        final(frame).operand_stack.capacity() == old(frame).operand_stack.capacity(),
        final(frame).local_variables@ == old(frame).local_variables@,
        match get_field_effect(class@, name@, heap@, old(frame).operand_stack@) {
            Ok(s) => if stack_depth(s) <= old(frame).operand_stack.capacity() {
                r == Ok::<Update, RuntimeError>(Update::Continue) && final(frame).operand_stack@
                    == s
            } else {
                r == Err::<Update, RuntimeError>(RuntimeError::StackOverflow)
            },
            Err(e) => r == Err::<Update, RuntimeError>(e),
        },
{
    let object = match pop_reference(frame) {
        Ok(v) => v,
        Err(e) => return Err(e),
    };
    let (i, k) = match find_instance_field(class, name, heap, object) {
        Ok(p) => p,
        Err(e) => return Err(e),
    };
    let value = instance_field_value(heap, i, k);
    match push_value(frame, StackValue::from_field_value(value)) {
        Ok(()) => Ok(Update::Continue),
        Err(e) => Err(e),
    }
}

/// The value a field holds after `putfield` writes `v` into it: the value must be of the
/// field's kind (ints for the small integral kinds, which keep their low bits).
pub open spec fn put_value(old_value: FieldValue, v: StackValue) -> Result<FieldValue, RuntimeError> {
    match (old_value, v) {
        (FieldValue::Byte(_), StackValue::Int(b)) => Ok(FieldValue::Byte(b as i8)),
        (FieldValue::Short(_), StackValue::Int(b)) => Ok(FieldValue::Short(b as i16)),
        (FieldValue::Int(_), StackValue::Int(b)) => Ok(FieldValue::Int(b)),
        (FieldValue::Long(_), StackValue::Long(b)) => Ok(FieldValue::Long(b)),
        (FieldValue::Char(_), StackValue::Int(b)) => Ok(FieldValue::Char(b as u16)),
        (FieldValue::Float(_), StackValue::Float(b)) => Ok(FieldValue::Float(b)),
        (FieldValue::Double(_), StackValue::Double(b)) => Ok(FieldValue::Double(b)),
        (FieldValue::Boolean(_), StackValue::Int(b)) => Ok(FieldValue::Boolean(b as u8)),
        (FieldValue::Reference(_), StackValue::Reference(b)) => Ok(FieldValue::Reference(b)),
        _ => Err(type_error(field_value_kind(old_value), v)),
    }
}

/// Writing an int into a field of a small integral kind and reading the field back keeps
/// what the kind can hold: a byte field gives back the int's low 8 bits with their sign
/// (-128 to 127), a short field its low 16 bits with their sign, a char field its low 16
/// bits without sign (0 to 65535), a boolean field its low 8 bits without sign. An int that
/// fits the kind comes back unchanged; int, long, float, double and reference fields give
/// back what was written.
pub proof fn lemma_put_then_get_field(old_value: FieldValue, b: i32)
    ensures
        old_value is Byte ==> (put_value(old_value, StackValue::Int(b)) matches Ok(v) && field_to_stack(v)
            matches StackValue::Int(x) && -0x80 <= x <= 0x7f && x & 0xff == b & 0xff && (-0x80 <= b
            <= 0x7f ==> x == b)),
        old_value is Short ==> (put_value(old_value, StackValue::Int(b)) matches Ok(v) && field_to_stack(v)
            matches StackValue::Int(x) && -0x8000 <= x <= 0x7fff && x & 0xffff == b & 0xffff && (-0x8000
            <= b <= 0x7fff ==> x == b)),
        old_value is Char ==> (put_value(old_value, StackValue::Int(b)) matches Ok(v) && field_to_stack(v)
            matches StackValue::Int(x) && 0 <= x <= 0xffff && x == b & 0xffff),
        old_value is Boolean ==> (put_value(old_value, StackValue::Int(b)) matches Ok(v) && field_to_stack(
            v,
        ) matches StackValue::Int(x) && 0 <= x <= 0xff && x == b & 0xff),
        old_value is Int ==> (put_value(old_value, StackValue::Int(b)) matches Ok(v) && field_to_stack(v)
            == StackValue::Int(b)),
{
    assert(-0x80 <= ((b as i8) as i32) <= 0x7f && ((b as i8) as i32) & 0xff == b & 0xff && (-0x80 <= b
        <= 0x7f ==> (b as i8) as i32 == b)) by (bit_vector);
    assert(-0x8000 <= ((b as i16) as i32) <= 0x7fff && ((b as i16) as i32) & 0xffff == b & 0xffff && (
    -0x8000 <= b <= 0x7fff ==> (b as i16) as i32 == b)) by (bit_vector);
    assert(0 <= ((b as u16) as i32) <= 0xffff && ((b as u16) as i32) == b & 0xffff) by (bit_vector);
    assert(0 <= ((b as u8) as i32) <= 0xff && ((b as u8) as i32) == b & 0xff) by (bit_vector);
}

/// Storing an int into an array element of a small integral kind and loading the element
/// back gives the same int whenever the store accepts it: `bastore` takes -128 to 127 into a
/// byte array, `sastore` -32768 to 32767, `castore` 0 to 65535, and `bastore` into a boolean
/// array keeps 1 as 1 and makes every other int 0.
pub proof fn lemma_store_then_load_element(element: FieldKind, i: i32)
    ensures
        element != FieldKind::Boolean && -0x80 <= i <= 0x7f ==> (narrowed_int(OpCode::Bastore, element, i)
            matches Ok(v) && field_to_stack(v) == StackValue::Int(i)),
        element == FieldKind::Boolean ==> (narrowed_int(OpCode::Bastore, element, i) matches Ok(v)
            && field_to_stack(v) == StackValue::Int(if i == 1 { 1i32 } else { 0i32 })),
        -0x8000 <= i <= 0x7fff ==> (narrowed_int(OpCode::Sastore, element, i) matches Ok(v) && field_to_stack(
            v,
        ) == StackValue::Int(i)),
        0 <= i <= 0xffff ==> (narrowed_int(OpCode::Castore, element, i) matches Ok(v) && field_to_stack(v)
            == StackValue::Int(i)),
        narrowed_int(OpCode::Iastore, element, i) matches Ok(v) && field_to_stack(v) == StackValue::Int(i),
{
    assert(-0x80 <= i <= 0x7f ==> (i as i8) as i32 == i) by (bit_vector);
    assert(-0x8000 <= i <= 0x7fff ==> (i as i16) as i32 == i) by (bit_vector);
    assert(0 <= i <= 0xffff ==> (i as u16) as i32 == i) by (bit_vector);
}

/// The kind of stack value a field value is written from.
pub open spec fn field_value_kind(f: FieldValue) -> ValueKind {
    match f {
        FieldValue::Long(_) => ValueKind::Long,
        FieldValue::Float(_) => ValueKind::Float,
        FieldValue::Double(_) => ValueKind::Double,
        FieldValue::Reference(_) => ValueKind::Reference,
        _ => ValueKind::Int,
    }
}

/// Computes the value a field holds after `putfield`.
fn put_value_of(old_value: FieldValue, v: StackValue) -> (r: Result<FieldValue, RuntimeError>)
    ensures
        r == put_value(old_value, v),
{
    match (old_value, v) {
        (FieldValue::Byte(_), StackValue::Int(b)) => Ok(FieldValue::Byte(b as i8)),
        (FieldValue::Short(_), StackValue::Int(b)) => Ok(FieldValue::Short(b as i16)),
        (FieldValue::Int(_), StackValue::Int(b)) => Ok(FieldValue::Int(b)),
        (FieldValue::Long(_), StackValue::Long(b)) => Ok(FieldValue::Long(b)),
        (FieldValue::Char(_), StackValue::Int(b)) => Ok(FieldValue::Char(b as u16)),
        (FieldValue::Float(_), StackValue::Float(b)) => Ok(FieldValue::Float(b)),
        (FieldValue::Double(_), StackValue::Double(b)) => Ok(FieldValue::Double(b)),
        (FieldValue::Boolean(_), StackValue::Int(b)) => Ok(FieldValue::Boolean(b as u8)),
        (FieldValue::Reference(_), StackValue::Reference(b)) => Ok(FieldValue::Reference(b)),
        _ => {
            let expected = match old_value {
                FieldValue::Long(_) => ValueKind::Long,
                FieldValue::Float(_) => ValueKind::Float,
                FieldValue::Double(_) => ValueKind::Double,
                FieldValue::Reference(_) => ValueKind::Reference,
                _ => ValueKind::Int,
            };
            Err(RuntimeError::InvalidType { expected, actual: value_kind(&v) })
        },
    }
}

/// The heap after `putfield` (the stack loses the value and the object reference).
pub open spec fn put_field_effect(
    class: crate::class::ClassIdentifierModel,
    name: Seq<char>,
    h: HeapModel,
    s: Seq<StackValue>,
) -> Result<HeapModel, RuntimeError> {
    match top_value(s) {
        Err(e) => Err(e),
        Ok(v) => match top_reference(s.drop_last()) {
            Err(e) => Err(e),
            Ok(r) => match addressed_field(class, name, h, r) {
                Err(e) => Err(e),
                Ok((i, fields, k)) => match put_value(fields[k].1, v) {
                    Err(e) => Err(e),
                    Ok(nv) => Ok(
                        HeapModel {
                            classes: h.classes,
                            codes: h.codes,
                            objects: h.objects.update(
                                i as int,
                                (
                                    h.objects[i as int].0,
                                    ObjectDataModel::Instance(fields.update(k, (fields[k].0, nv))),
                                ),
                            ),
                        },
                    ),
                },
            },
        },
    }
}

/// Runs `putfield`: writes a value into a field of an object.
pub fn execute_put_field(
    class: &ClassIdentifier,
    name: &String,
    frame: &mut Frame,
    heap: &mut Heap,
) -> (r: Result<Update, RuntimeError>)
    requires
        old(frame).wf(),
        old(heap).wf(),
    ensures
        final(frame).wf(),
        final(heap).wf(),
        final(frame).operand_stack.capacity() == old(frame).operand_stack.capacity(),
        final(frame).local_variables@ == old(frame).local_variables@,
        match put_field_effect(class@, name@, old(heap)@, old(frame).operand_stack@) {
            Ok(h) => r == Ok::<Update, RuntimeError>(Update::Continue) && final(heap)@ == h
                && final(frame).operand_stack@ == old(frame).operand_stack@.drop_last().drop_last(),
            Err(e) => r == Err::<Update, RuntimeError>(e),
        },
{
    let v = match pop_value(frame) {
        Ok(v) => v,
        Err(e) => return Err(e),
    };
    let object = match pop_reference(frame) {
        Ok(v) => v,
        Err(e) => return Err(e),
    };
    let (i, k) = match find_instance_field(class, name, heap, object) {
        Ok(p) => p,
        Err(e) => return Err(e),
    };
    let old_value = instance_field_value(heap, i, k);
    let nv = match put_value_of(old_value, v) {
        Ok(nv) => nv,
        Err(e) => return Err(e),
    };
    set_instance_field(heap, i, k, nv);
    Ok(Update::Continue)
}

// ---------------------------------------------------------------------------------------------
// Objects, strings, methods and exceptions

/// The fields of a new instance: every instance field with its default value.
pub open spec fn default_fields(descriptors: Seq<(Seq<char>, FieldKind)>) -> Seq<
    (Seq<char>, FieldValue),
> {
    descriptors.map_values(|d: (Seq<char>, FieldKind)| (d.0, default_value(d.1)))
}

/// The heap and operand stack after `new`.
pub open spec fn new_effect(
    class: crate::class::ClassIdentifierModel,
    h: HeapModel,
    s: Seq<StackValue>,
) -> Result<(HeapModel, Seq<StackValue>), RuntimeError> {
    match class_index(h, class) {
        None => Err(RuntimeError::ClassNotFound),
        Some(c) => {
            let data = new_object_data(h, c);
            match data {
                None => Err(RuntimeError::Unsupported),
                Some(d) => Ok(
                    (
                        HeapModel { classes: h.classes, codes: h.codes, objects: h.objects.push((c as usize, d)) },
                        s.push(StackValue::Reference(Some(h.objects.len() as usize))),
                    ),
                ),
            }
        },
    }
}

/// The fields of a new instance of class `c`.
fn instance_fields_of(heap: &Heap, c: usize) -> (r: Vec<crate::class::Field>)
    requires
        c < heap.classes@.len(),
    ensures
        crate::class::members::fields_view(r@) == default_fields(heap@.classes[c as int].instance_fields),
{
    let descriptors = &heap.classes[c].instance_fields;
    let ghost dv = crate::class::members::field_descriptors_view(descriptors@);
    assert(heap@.classes[c as int].instance_fields == dv);
    let mut fields: Vec<crate::class::Field> = Vec::new();
    let mut i: usize = 0;
    while i < descriptors.len()
        invariant
            i <= descriptors@.len(),
            dv == crate::class::members::field_descriptors_view(descriptors@),
            crate::class::members::fields_view(fields@) == default_fields(dv.take(i as int)),
        decreases descriptors@.len() - i,
    {
        let ghost before = crate::class::members::fields_view(fields@);
        let d = &descriptors[i];
        let f = crate::class::Field { name: d.name.clone(), value: FieldValue::default_for(d.kind) };
        fields.push(f);
        assert(crate::class::members::fields_view(fields@) =~= before.push(f@));
        assert(default_fields(dv.take(i + 1)) =~= default_fields(dv.take(i as int)).push(
            (dv[i as int].0, default_value(dv[i as int].1)),
        ));
        i = i + 1;
    }
    assert(dv.take(i as int) =~= dv);
    fields
}

/// The content of a new instance of class `c`; `None` for classes whose instances
/// `new` cannot make.
pub open spec fn new_object_data(h: HeapModel, c: int) -> Option<ObjectDataModel> {
    match h.classes[c].kind {
        ClassKind::Plain => Some(ObjectDataModel::Instance(default_fields(h.classes[c].instance_fields))),
        ClassKind::Throwable => Some(ObjectDataModel::Throwable(None)),
        _ => None,
    }
}

/// Makes the content of a new instance of class `c`.
fn make_object_data(heap: &Heap, c: usize) -> (r: Option<ObjectData>)
    requires
        c < heap.classes@.len(),
    ensures
        r is Some <==> new_object_data(heap@, c as int) is Some,
        r matches Some(d) ==> new_object_data(heap@, c as int) == Some(d@),
{
    assert(heap@.classes[c as int] == heap.classes@[c as int]@);
    match heap.classes[c].kind {
        ClassKind::Plain => Some(ObjectData::Instance(instance_fields_of(heap, c))),
        ClassKind::Throwable => Some(ObjectData::Throwable(None)),
        _ => None,
    }
}

/// Runs `new`: makes an instance of a class, with its instance fields at their defaults.
pub fn execute_new(class: &ClassIdentifier, frame: &mut Frame, heap: &mut Heap) -> (r: Result<
    Update,
    RuntimeError,
>)
    requires
        old(frame).wf(),
        old(heap).wf(),
    ensures
        final(frame).wf(),
        final(heap).wf(),
        final(frame).operand_stack.capacity() == old(frame).operand_stack.capacity(),
        final(frame).local_variables@ == old(frame).local_variables@,
        match new_effect(class@, old(heap)@, old(frame).operand_stack@) {
            Ok((h, s)) => if stack_depth(s) <= old(frame).operand_stack.capacity() {
                r == Ok::<Update, RuntimeError>(Update::Continue) && final(heap)@ == h && final(frame).operand_stack@ == s
            } else {
                r == Err::<Update, RuntimeError>(RuntimeError::StackOverflow)
            },
            Err(e) => r == Err::<Update, RuntimeError>(e),
        },
{
    let c = match heap.find_class(class) {
        Some(c) => c,
        None => return Err(RuntimeError::ClassNotFound),
    };
    let data = match make_object_data(heap, c) {
        Some(d) => d,
        None => return Err(RuntimeError::Unsupported),
    };
    let index = add_object(heap, HeapObject { class: c, data });
    match push_value(frame, StackValue::Reference(Some(index))) {
        Ok(()) => Ok(Update::Continue),
        Err(e) => Err(e),
    }
}

/// The first class whose instances are strings.
pub open spec fn string_class(h: HeapModel) -> Option<int> {
    if exists|k: int| 0 <= k < h.classes.len() && #[trigger] h.classes[k].kind == ClassKind::Text {
        Some(
            choose|k: int|
                0 <= k < h.classes.len() && #[trigger] h.classes[k].kind == ClassKind::Text
                    && forall|j: int| 0 <= j < k ==> h.classes[j].kind != ClassKind::Text,
        )
    } else {
        None
    }
}

/// The heap and operand stack after `ldc` of a string constant: a new string object.
pub open spec fn ldc_string_effect(text: Seq<char>, h: HeapModel, s: Seq<StackValue>) -> Result<
    (HeapModel, Seq<StackValue>),
    RuntimeError,
> {
    match string_class(h) {
        None => Err(RuntimeError::ClassNotFound),
        Some(c) => Ok(
            (
                HeapModel {
                    classes: h.classes,
                    codes: h.codes,
                    objects: h.objects.push((c as usize, ObjectDataModel::Text(text))),
                },
                s.push(StackValue::Reference(Some(h.objects.len() as usize))),
            ),
        ),
    }
}

/// Runs `ldc` of a string constant.
pub fn execute_ldc_string(text: &String, frame: &mut Frame, heap: &mut Heap) -> (r: Result<
    Update,
    RuntimeError,
>)
    requires
        old(frame).wf(),
        old(heap).wf(),
    ensures
        final(frame).wf(),
        final(heap).wf(),
        final(frame).operand_stack.capacity() == old(frame).operand_stack.capacity(),
        final(frame).local_variables@ == old(frame).local_variables@,
        match ldc_string_effect(text@, old(heap)@, old(frame).operand_stack@) {
            Ok((h, s)) => if stack_depth(s) <= old(frame).operand_stack.capacity() {
                r == Ok::<Update, RuntimeError>(Update::Continue) && final(heap)@ == h && final(frame).operand_stack@ == s
            } else {
                r == Err::<Update, RuntimeError>(RuntimeError::StackOverflow)
            },
            Err(e) => r == Err::<Update, RuntimeError>(e),
        },
{
    let c = match class_of_kind(heap, ClassKind::Text) {
        Some(c) => c,
        None => return Err(RuntimeError::ClassNotFound),
    };
    let index = add_object(heap, HeapObject { class: c, data: ObjectData::Text(text.clone()) });
    match push_value(frame, StackValue::Reference(Some(index))) {
        Ok(()) => Ok(Update::Continue),
        Err(e) => Err(e),
    }
}

/// The first method of a class with the given name and signature.
pub open spec fn method_index(
    methods: Seq<MethodSignature>,
    name: Seq<char>,
    parameters: Seq<crate::class::ArgumentKindModel>,
    return_type: Option<crate::class::ArgumentKindModel>,
) -> Option<int> {
    if exists|k: int|
        0 <= k < methods.len() && #[trigger] methods[k].name == name && methods[k].parameters
            == parameters && methods[k].return_type == return_type {
        Some(
            choose|k: int|
                0 <= k < methods.len() && #[trigger] methods[k].name == name
                    && methods[k].parameters == parameters && methods[k].return_type
                    == return_type && forall|j: int|
                    0 <= j < k ==> !(methods[j].name == name && methods[j].parameters
                        == parameters && methods[j].return_type == return_type),
        )
    } else {
        None
    }
}

/// What an invocation instruction resolves to: the class named by the symbolic method,
/// and its first method with the symbolic method's name and signature.
pub open spec fn invoke_effect(m: SymbolicMethod, is_static: bool, h: HeapModel) -> Result<
    Update,
    RuntimeError,
> {
    match class_index(h, m.class_name@) {
        None => Err(RuntimeError::ClassNotFound),
        Some(c) => match method_index(
            h.classes[c].methods,
            m.descriptor.name@,
            m.parameters_view(),
            m.return_view(),
        ) {
            None => Err(RuntimeError::MethodNotFound),
            Some(k) => Ok(Update::MethodCall { class: c as usize, method: k as usize, is_static }),
        },
    }
}

/// The signatures of a list of methods.
pub open spec fn signatures(methods: Seq<crate::class::Method>) -> Seq<MethodSignature> {
    methods.map_values(|x: crate::class::Method| crate::heap::signature_of(x))
}

/// Finds the first method with the symbolic method's name and signature.
fn find_method(methods: &Vec<crate::class::Method>, d: &crate::executor::op_code::MethodDescriptor) -> (r: Option<usize>)
    ensures
        r is Some <==> method_index(
            signatures(methods@),
            d.name@,
            d.parameters_view(),
            d.return_view(),
        ) is Some,
        r matches Some(k) ==> method_index(
            signatures(methods@),
            d.name@,
            d.parameters_view(),
            d.return_view(),
        ) == Some(k as int) && k < methods@.len(),
{
    let ghost sigs = signatures(methods@);
    let mut k: usize = 0;
    while k < methods.len()
        invariant
            k <= methods@.len(),
            sigs == signatures(methods@),
            forall|j: int|
                0 <= j < k ==> !(sigs[j].name == d.name@ && sigs[j].parameters
                    == d.parameters_view() && sigs[j].return_type == d.return_view()),
        decreases methods@.len() - k,
    {
        let candidate = &methods[k];
        proof {
            assert(sigs[k as int] == crate::heap::signature_of(methods@[k as int]));
        }
        if crate::text::str_equal(candidate.name.as_str(), d.name.as_str())
            && crate::class::argument_kinds_equal(&candidate.parameters, &d.descriptor.0)
            && crate::class::optional_kinds_equal(&candidate.return_type, &d.descriptor.1) {
            proof {
                assert(sigs[k as int].name == d.name@ && sigs[k as int].parameters
                    == d.parameters_view() && sigs[k as int].return_type == d.return_view());
                let w = choose|w: int|
                    0 <= w < sigs.len() && #[trigger] sigs[w].name == d.name@
                        && sigs[w].parameters == d.parameters_view() && sigs[w].return_type
                        == d.return_view() && forall|j: int|
                        0 <= j < w ==> !(sigs[j].name == d.name@ && sigs[j].parameters
                            == d.parameters_view() && sigs[j].return_type == d.return_view());
                if w < k {
                } else if w > k {
                }
            }
            return Some(k);
        }
        k = k + 1;
    }
    None
}

/// The method with the given name and signature that class `c` has or inherits: the first
/// such method of the first class on its chain of superclasses (looking at no more than
/// `fuel` classes) that has one, with the index of that class.
pub open spec fn resolved_method(
    h: HeapModel,
    c: int,
    name: Seq<char>,
    parameters: Seq<crate::class::ArgumentKindModel>,
    return_type: Option<crate::class::ArgumentKindModel>,
    fuel: nat,
) -> Option<(int, int)>
    decreases fuel,
{
    if fuel == 0 || !(0 <= c < h.classes.len()) {
        None
    } else {
        match method_index(h.classes[c].methods, name, parameters, return_type) {
            Some(k) => Some((c, k)),
            None => match h.classes[c].super_class {
                Some(s) => resolved_method(h, s as int, name, parameters, return_type, (fuel - 1) as nat),
                None => None,
            },
        }
    }
}

/// Looks a method up in class `class` and then in its superclasses: the index of the class
/// that declares it and the method's index there. A chain of superclasses is followed for
/// at most as many classes as the heap has.
pub fn get_method(heap: &Heap, class: usize, d: &crate::executor::op_code::MethodDescriptor) -> (r:
    Option<(usize, usize)>)
    ensures
        r == match resolved_method(
            heap@,
            class as int,
            d.name@,
            d.parameters_view(),
            d.return_view(),
            heap@.classes.len(),
        ) {
            Some((c, k)) => Some((c as usize, k as usize)),
            None => None::<(usize, usize)>,
        },
{
    let ghost h = heap@;
    let ghost total = heap@.classes.len();
    let mut current = class;
    let mut steps: usize = 0;
    while steps < heap.classes.len()
        invariant
            h == heap@,
            total == h.classes.len(),
            steps <= total,
            resolved_method(h, class as int, d.name@, d.parameters_view(), d.return_view(), total)
                == resolved_method(
                h,
                current as int,
                d.name@,
                d.parameters_view(),
                d.return_view(),
                (total - steps) as nat,
            ),
        decreases total - steps,
    {
        if current >= heap.classes.len() {
            return None;
        }
        assert(heap@.classes[current as int] == heap.classes@[current as int]@);
        assert(heap@.classes[current as int].methods == signatures(heap.classes@[current as int].methods@));
        match find_method(&heap.classes[current].methods, d) {
            Some(k) => {
                return Some((current, k));
            },
            None => {},
        }
        match heap.classes[current].super_class {
            Some(s) => {
                current = s;
            },
            None => {
                return None;
            },
        }
        steps = steps + 1;
    }
    None
}

/// Resolves an invocation instruction.
pub fn execute_invoke(m: &SymbolicMethod, is_static: bool, heap: &Heap) -> (r: Result<
    Update,
    RuntimeError,
>)
    ensures
        r == invoke_effect(*m, is_static, heap@),
{
    let c = match heap.find_class(&m.class_name) {
        Some(c) => c,
        None => return Err(RuntimeError::ClassNotFound),
    };
    assert(heap@.classes[c as int].methods == signatures(heap.classes@[c as int].methods@));
    match find_method(&heap.classes[c].methods, &m.descriptor) {
        Some(k) => Ok(Update::MethodCall { class: c, method: k, is_static }),
        None => Err(RuntimeError::MethodNotFound),
    }
}

/// What `athrow` does: throw the object on top of the stack, which must not be `null`.
pub open spec fn throw_effect(s: Seq<StackValue>) -> Result<Update, RuntimeError> {
    match top_reference(s) {
        Err(e) => Err(e),
        Ok(None) => Err(RuntimeError::NullPointer),
        Ok(Some(i)) => Ok(Update::Exception(i)),
    }
}

/// Runs `athrow`.
pub fn execute_throw(frame: &mut Frame) -> (r: Result<Update, RuntimeError>)
    requires
        old(frame).wf(),
    ensures
        final(frame).wf(),
        final(frame).operand_stack.capacity() == old(frame).operand_stack.capacity(),
        final(frame).local_variables@ == old(frame).local_variables@,
        r == throw_effect(old(frame).operand_stack@),
{
    match pop_reference(frame) {
        Ok(Some(i)) => Ok(Update::Exception(i)),
        Ok(None) => Err(RuntimeError::NullPointer),
        Err(e) => Err(e),
    }
}


// ---------------------------------------------------------------------------------------------
// Multi-dimensional arrays

/// The element kind of an array class with the given dimensions and component.
pub open spec fn array_element_kind(dimensions: usize, name: crate::class::ArrayNameModel) -> FieldKind {
    if dimensions > 1 {
        FieldKind::Reference
    } else {
        match name {
            crate::class::ArrayNameModel::Byte => FieldKind::Byte,
            crate::class::ArrayNameModel::Char => FieldKind::Char,
            crate::class::ArrayNameModel::Double => FieldKind::Double,
            crate::class::ArrayNameModel::Float => FieldKind::Float,
            crate::class::ArrayNameModel::Int => FieldKind::Int,
            crate::class::ArrayNameModel::Long => FieldKind::Long,
            crate::class::ArrayNameModel::Short => FieldKind::Short,
            crate::class::ArrayNameModel::Boolean => FieldKind::Boolean,
            crate::class::ArrayNameModel::Class(_) => FieldKind::Reference,
        }
    }
}

/// Whether `h2` keeps the classes of `h1` and every object of `h1` but `except`.
pub open spec fn keeps_objects_except(h1: HeapModel, h2: HeapModel, except: int) -> bool {
    &&& classes_kept(h1, h2)
    &&& h1.objects.len() <= h2.objects.len()
    &&& forall|j: int|
        0 <= j < h1.objects.len() && j != except ==> #[trigger] h2.objects[j] == h1.objects[j]
}

/// Whether `h2` keeps the classes of `h1` and the objects of `h1` from index `lo` on.
pub open spec fn keeps_objects_from(h1: HeapModel, h2: HeapModel, lo: int) -> bool {
    &&& classes_kept(h1, h2)
    &&& h1.objects.len() <= h2.objects.len()
    &&& forall|j: int| lo <= j < h1.objects.len() ==> #[trigger] h2.objects[j] == h1.objects[j]
}

/// Whether object `i` is an array with `length` elements of kind `element`.
pub open spec fn is_array_object(h: HeapModel, i: int, element: FieldKind, length: nat) -> bool {
    &&& 0 <= i < h.objects.len()
    &&& h.objects[i].1 is Array
    &&& (h.objects[i].1)->Array_element == element
    &&& (h.objects[i].1)->Array_values.len() == length
}

/// Whether object `i` is an array of the class with `dims` dimensions of `name` in `package`
/// and `lens[dims]` elements; with more than one dimension each element refers to a later
/// object that is such an array of one dimension less.
pub open spec fn nested_array(
    h: HeapModel,
    i: int,
    package: Seq<Seq<char>>,
    name: crate::class::ArrayNameModel,
    dims: nat,
    lens: Seq<usize>,
) -> bool
    decreases dims,
{
    &&& 0 <= i < h.objects.len()
    &&& h.objects[i].0 < h.classes.len()
    &&& h.classes[h.objects[i].0 as int].identifier == array_id(package, name, dims)
    &&& dims < lens.len()
    &&& is_array_object(h, i, array_element_kind(dims as usize, name), lens[dims as int] as nat)
    &&& dims > 1 ==> forall|j: int|
        0 <= j < lens[dims as int] ==> match #[trigger] (h.objects[i].1)->Array_values[j] {
            FieldValue::Reference(Some(k)) => i < k && nested_array(h, k as int, package, name, (dims - 1) as nat, lens),
            _ => false,
        }
}

/// Whether element `j` of array `i` refers to a later object that is a nested array of
/// `dims` dimensions.
pub open spec fn nested_element(
    h: HeapModel,
    i: int,
    j: int,
    package: Seq<Seq<char>>,
    name: crate::class::ArrayNameModel,
    dims: nat,
    lens: Seq<usize>,
) -> bool {
    match (h.objects[i].1)->Array_values[j] {
        FieldValue::Reference(Some(k)) => i < k && nested_array(h, k as int, package, name, dims, lens),
        _ => false,
    }
}

/// A nested array stays when its objects and the classes are kept.
pub proof fn lemma_nested_array_kept(
    h1: HeapModel,
    h2: HeapModel,
    i: int,
    package: Seq<Seq<char>>,
    name: crate::class::ArrayNameModel,
    dims: nat,
    lens: Seq<usize>,
    lo: int,
)
    requires
        nested_array(h1, i, package, name, dims, lens),
        lo <= i,
        keeps_objects_from(h1, h2, lo),
    ensures
        nested_array(h2, i, package, name, dims, lens),
    decreases dims,
{
    reveal_with_fuel(nested_array, 2);
    assert(0 <= i < h1.objects.len());
    assert(h2.objects[i] == h1.objects[i]);
    assert(h2.classes[h1.objects[i].0 as int] == h1.classes[h1.objects[i].0 as int]);
    if dims > 1 {
        assert forall|j: int| 0 <= j < lens[dims as int] implies match #[trigger] (
            h2.objects[i].1)->Array_values[j] {
            FieldValue::Reference(Some(k)) => i < k && nested_array(h2, k as int, package, name, (dims - 1) as nat, lens),
            _ => false,
        } by {
            assert(nested_element(h1, i, j, package, name, (dims - 1) as nat, lens));
            if let FieldValue::Reference(Some(k)) = (h1.objects[i].1)->Array_values[j] {
                lemma_nested_array_kept(h1, h2, k as int, package, name, (dims - 1) as nat, lens, lo);
            }
        }
    }
}

/// Makes one array of the array class `id` with `length` elements at their defaults.
fn init_array(heap: &mut Heap, id: &ClassIdentifier, length: usize) -> (r: Result<usize, RuntimeError>)
    requires
        old(heap).wf(),
        id.is_array(),
    ensures
        final(heap).wf(),
        classes_kept(old(heap)@, final(heap)@),
        r is Ok <==> crate::heap::array_class_available(old(heap)@, id@),
        r matches Ok(i) ==> {
            &&& i == old(heap)@.objects.len()
            &&& final(heap)@.objects.len() == i + 1
            &&& keeps_objects_except(old(heap)@, final(heap)@, -1)
            &&& is_array_object(
                final(heap)@,
                i as int,
                array_element_kind(
                    (id@.class_name)->Array_dimensions,
                    (id@.class_name)->Array_name,
                ),
                length as nat,
            )
            &&& final(heap)@.objects[i as int].0 < final(heap)@.classes.len()
            &&& final(heap)@.classes[final(heap)@.objects[i as int].0 as int].identifier == id@
        },
{
    let (dimensions, name) = id.get_array_class_name();
    let element = if dimensions > 1 {
        FieldKind::Reference
    } else {
        match name {
            crate::class::ArrayName::Byte => FieldKind::Byte,
            crate::class::ArrayName::Char => FieldKind::Char,
            crate::class::ArrayName::Double => FieldKind::Double,
            crate::class::ArrayName::Float => FieldKind::Float,
            crate::class::ArrayName::Int => FieldKind::Int,
            crate::class::ArrayName::Long => FieldKind::Long,
            crate::class::ArrayName::Short => FieldKind::Short,
            crate::class::ArrayName::Boolean => FieldKind::Boolean,
            crate::class::ArrayName::Class(_) => FieldKind::Reference,
        }
    };
    let class = match heap.find_array_class(id) {
        Some(c) => c,
        None => return Err(RuntimeError::ClassNotFound),
    };
    let values = default_values(element, length);
    let ghost h1 = heap@;
    let i = add_object(heap, HeapObject { class, data: ObjectData::Array { element, values } });
    proof {
        assert(heap@.objects[i as int] == (class, ObjectDataModel::Array { element, values: values@ }));
    }
    Ok(i)
}

/// Fills the array `outer` of the array class `id` with new arrays of one less dimension,
/// and those in turn, down to the last dimension. `lens[d]` is the length of the arrays of
/// `d` dimensions. It succeeds when the array classes of fewer dimensions can be found or
/// made.
fn init_array_rec(
    heap: &mut Heap,
    id: &ClassIdentifier,
    lens: &Vec<usize>,
    outer: usize,
) -> (r: Result<(), RuntimeError>)
    requires
        old(heap).wf(),
        id.is_array(),
        1 <= (id@.class_name)->Array_dimensions < lens@.len(),
        outer < old(heap)@.objects.len(),
        old(heap)@.objects[outer as int].0 < old(heap)@.classes.len(),
        old(heap)@.classes[old(heap)@.objects[outer as int].0 as int].identifier == id@,
        is_array_object(
            old(heap)@,
            outer as int,
            array_element_kind((id@.class_name)->Array_dimensions, (id@.class_name)->Array_name),
            lens@[(id@.class_name)->Array_dimensions as int] as nat,
        ),
    ensures
        final(heap).wf(),
        (forall|k: nat|
            1 <= k < (id@.class_name)->Array_dimensions ==> #[trigger] crate::heap::array_class_available(
                old(heap)@,
                array_id(id@.package, (id@.class_name)->Array_name, k),
            )) ==> r is Ok,
        r is Ok ==> keeps_objects_except(old(heap)@, final(heap)@, outer as int),
        r is Ok ==> nested_array(
            final(heap)@,
            outer as int,
            id@.package,
            (id@.class_name)->Array_name,
            (id@.class_name)->Array_dimensions as nat,
            lens@,
        ),
        r is Ok ==> final(heap)@.objects[outer as int].0 == old(heap)@.objects[outer as int].0,
    decreases (id@.class_name)->Array_dimensions,
{
    let (dimensions, name) = id.get_array_class_name();
    let ghost h0 = heap@;
    let ghost package = id@.package;
    let ghost aname = (id@.class_name)->Array_name;
    if dimensions == 1 {
        return Ok(());
    }
    let ghost avail = forall|k: nat|
        1 <= k < dimensions ==> #[trigger] crate::heap::array_class_available(h0, array_id(package, aname, k));
    let inner_id = ClassIdentifier {
        package: crate::class::clone_strings(&id.package),
        class_name: crate::class::ClassName::Array { dimensions: dimensions - 1, name: name.clone() },
    };
    assert(inner_id@ == array_id(package, aname, (dimensions - 1) as nat));
    let count = lens[dimensions];
    let inner_length = lens[dimensions - 1];
    let mut i: usize = 0;
    while i < count
        invariant
            heap.wf(),
            h0 == old(heap)@,
            package == id@.package,
            aname == (id@.class_name)->Array_name,
            inner_id.is_array(),
            inner_id@ == array_id(package, aname, (dimensions - 1) as nat),
            dimensions == (id@.class_name)->Array_dimensions,
            1 < dimensions < lens@.len(),
            count == lens@[dimensions as int],
            inner_length == lens@[dimensions - 1],
            i <= count,
            keeps_objects_except(h0, heap@, outer as int),
            is_array_object(heap@, outer as int, FieldKind::Reference, count as nat),
            heap@.objects[outer as int].0 == h0.objects[outer as int].0,
            avail == forall|k: nat|
                1 <= k < dimensions ==> #[trigger] crate::heap::array_class_available(h0, array_id(package, aname, k)),
            forall|j: int| 0 <= j < i ==> #[trigger] nested_element(heap@, outer as int, j, package, aname, (dimensions - 1) as nat, lens@),
        decreases count - i,
    {
        let ghost h1 = heap@;
        proof {
            if avail {
                assert(crate::heap::array_class_available(h0, array_id(package, aname, (dimensions - 1) as nat)));
                crate::heap::lemma_array_class_available_kept(h0, h1, inner_id@);
            }
        }
        let inner = match init_array(heap, &inner_id, inner_length) {
            Ok(x) => x,
            Err(e) => return Err(e),
        };
        let ghost h1b = heap@;
        proof {
            if avail {
                assert forall|k: nat| 1 <= k < dimensions - 1 implies #[trigger] crate::heap::array_class_available(
                    h1b,
                    array_id(package, aname, k),
                ) by {
                    assert(crate::heap::array_class_available(h0, array_id(package, aname, k)));
                    assert(classes_kept(h0, h1b));
                    crate::heap::lemma_array_class_available_kept(h0, h1b, array_id(package, aname, k));
                }
            }
        }
        match init_array_rec(heap, &inner_id, lens, inner) {
            Ok(()) => {},
            Err(e) => return Err(e),
        }
        let ghost h2 = heap@;
        assert(h2.objects[outer as int] == h1.objects[outer as int]);
        set_array_element(heap, outer, i, FieldValue::Reference(Some(inner)));
        let ghost h3 = heap@;
        proof {
            assert forall|j: int|
                0 <= j < h0.objects.len() && j != outer implies #[trigger] h3.objects[j]
                == h0.objects[j] by {
                assert(h1.objects[j] == h0.objects[j]);
                assert(h1b.objects[j] == h1.objects[j]);
                assert(h2.objects[j] == h1b.objects[j]);
            }
            assert forall|k: int| 0 <= k < h0.classes.len() implies #[trigger] h3.classes[k]
                == h0.classes[k] by {
                assert(h1.classes[k] == h0.classes[k]);
                assert(h1b.classes[k] == h1.classes[k]);
                assert(h2.classes[k] == h1b.classes[k]);
            }
            assert(keeps_objects_from(h1, h3, outer + 1)) by {
                assert forall|j: int| outer + 1 <= j < h1.objects.len() implies #[trigger] h3.objects[j]
                    == h1.objects[j] by {
                    assert(h1b.objects[j] == h1.objects[j]);
                    assert(h2.objects[j] == h1b.objects[j]);
                }
                assert forall|k: int| 0 <= k < h1.classes.len() implies #[trigger] h3.classes[k]
                    == h1.classes[k] by {
                    assert(h1b.classes[k] == h1.classes[k]);
                    assert(h2.classes[k] == h1b.classes[k]);
                }
            }
            assert(keeps_objects_from(h2, h3, inner as int)) by {
                assert forall|j: int| inner <= j < h2.objects.len() implies #[trigger] h3.objects[j]
                    == h2.objects[j] by {}
            }
            lemma_nested_array_kept(h2, h3, inner as int, package, aname, (dimensions - 1) as nat, lens@, inner as int);
            assert forall|j: int| 0 <= j < i + 1 implies #[trigger] nested_element(
                h3,
                outer as int,
                j,
                package,
                aname,
                (dimensions - 1) as nat,
                lens@,
            ) by {
                if j < i {
                    assert(nested_element(h1, outer as int, j, package, aname, (dimensions - 1) as nat, lens@));
                    assert((h3.objects[outer as int].1)->Array_values[j] == (h1.objects[outer as int].1)->Array_values[j]);
                    if let FieldValue::Reference(Some(k)) = (h1.objects[outer as int].1)->Array_values[j] {
                        lemma_nested_array_kept(h1, h3, k as int, package, aname, (dimensions - 1) as nat, lens@, outer + 1);
                    }
                } else {
                    assert((h3.objects[outer as int].1)->Array_values[j] == FieldValue::Reference(Some(inner)));
                }
            }
        }
        i = i + 1;
    }
    proof {
        assert(heap@.classes[heap@.objects[outer as int].0 as int] == h0.classes[h0.objects[outer as int].0 as int]);
        assert forall|j: int| 0 <= j < count implies match #[trigger] (
            heap@.objects[outer as int].1)->Array_values[j] {
            FieldValue::Reference(Some(k)) => outer < k && nested_array(heap@, k as int, package, aname, (dimensions - 1) as nat, lens@),
            _ => false,
        } by {
            assert(nested_element(heap@, outer as int, j, package, aname, (dimensions - 1) as nat, lens@));
        }
    }
    Ok(())
}

/// Writes element `index` of array `i`.
fn set_array_element(heap: &mut Heap, i: usize, index: usize, value: FieldValue)
    requires
        old(heap).wf(),
        i < old(heap).objects@.len(),
        old(heap)@.objects[i as int].1 is Array,
        index < (old(heap)@.objects[i as int].1)->Array_values.len(),
    ensures
        final(heap).wf(),
        final(heap)@.classes == old(heap)@.classes,
        final(heap)@.codes == old(heap)@.codes,
        final(heap)@.objects == old(heap)@.objects.update(
            i as int,
            (
                old(heap)@.objects[i as int].0,
                ObjectDataModel::Array {
                    element: (old(heap)@.objects[i as int].1)->Array_element,
                    values: (old(heap)@.objects[i as int].1)->Array_values.update(
                        index as int,
                        value,
                    ),
                },
            ),
        ),
{
    let ghost h0 = heap@;
    let class = heap.objects[i].class;
    let mut taken = HeapObject { class, data: ObjectData::Instance(Vec::new()) };
    proof {
        assert(heap@.objects[i as int] == heap.objects@[i as int]@);
    }
    heap.objects.set_and_swap(i, &mut taken);
    let data = match taken.data {
        ObjectData::Array { element, values } => {
            let mut values = values;
            values.set(index, value);
            ObjectData::Array { element, values }
        },
        other => other,
    };
    let mut updated = HeapObject { class, data };
    heap.objects.set_and_swap(i, &mut updated);
    proof {
        assert(heap@.objects =~= h0.objects.update(
            i as int,
            (
                h0.objects[i as int].0,
                ObjectDataModel::Array {
                    element: (h0.objects[i as int].1)->Array_element,
                    values: (h0.objects[i as int].1)->Array_values.update(index as int, value),
                },
            ),
        ));
    }
}

/// The lengths that `multianewarray` with `d` dimensions takes from the stack `s`: entry
/// `k` (from 1 to `d`) is the length of the arrays of `k` dimensions, the value `k - 1`
/// places below the top.
pub open spec fn multi_lengths(s: Seq<StackValue>, d: nat) -> Seq<usize> {
    Seq::new(d + 1, |k: int| if k == 0 {
        0usize
    } else {
        (s[s.len() - k]->Int_0) as usize
    })
}

/// Whether `multianewarray` of the array class `id` finds what it needs: at least one
/// dimension, as many non-negative ints on the stack, and array classes of every number of
/// dimensions up to its own that can be found or made.
pub open spec fn multi_array_ready(id: crate::class::ClassIdentifierModel, s: Seq<StackValue>, h: HeapModel) -> bool {
    &&& id.class_name is Array
    &&& 1 <= (id.class_name)->Array_dimensions <= s.len()
    &&& forall|j: int|
        1 <= j <= (id.class_name)->Array_dimensions ==> #[trigger] s[s.len() - j] is Int && s[s.len() - j]->Int_0 >= 0
    &&& forall|k: nat|
        1 <= k <= (id.class_name)->Array_dimensions ==> #[trigger] crate::heap::array_class_available(
            h,
            array_id(id.package, (id.class_name)->Array_name, k),
        )
}

/// Runs `multianewarray`: pops one length per dimension (the innermost on top) and makes
/// the nested arrays of the array class `id`.
pub fn execute_multi_new_array(id: &ClassIdentifier, frame: &mut Frame, heap: &mut Heap) -> (r:
    Result<Update, RuntimeError>)
    requires
        old(frame).wf(),
        old(heap).wf(),
    ensures
        final(frame).wf(),
        final(heap).wf(),
        final(frame).operand_stack.capacity() == old(frame).operand_stack.capacity(),
        final(frame).local_variables@ == old(frame).local_variables@,
        multi_array_outcome(id, old(frame), final(frame), old(heap)@, final(heap)@, r),
{
    if !id.is_array_identifier() {
        return Err(RuntimeError::ClassNotFound);
    }
    let (dimensions, _) = id.get_array_class_name();
    if dimensions == 0 {
        return Err(RuntimeError::ClassNotFound);
    }
    let ghost s0 = frame.operand_stack@;
    let ghost ready = multi_array_ready(id@, s0, heap@);
    let mut lens: Vec<usize> = Vec::new();
    lens.push(0);
    let mut k: usize = 0;
    while k < dimensions
        invariant
            frame.wf(),
            heap.wf(),
            id.is_array(),
            dimensions == (id@.class_name)->Array_dimensions,
            ready == multi_array_ready(id@, s0, heap@),
            k <= dimensions,
            lens@.len() == k + 1,
            k <= s0.len(),
            frame.operand_stack@ == s0.subrange(0, s0.len() - k),
            frame.operand_stack.capacity() == old(frame).operand_stack.capacity(),
            frame.local_variables@ == old(frame).local_variables@,
            s0 == old(frame).operand_stack@,
            lens@ == multi_lengths(s0, k as nat),
        decreases dimensions - k,
    {
        proof {
            if ready {
                assert(s0[s0.len() - (k + 1)] is Int);
                assert(s0.subrange(0, s0.len() - k).last() == s0[s0.len() - (k + 1)]);
            }
        }
        let d = match pop_int(frame) {
            Ok(d) => d,
            Err(e) => return Err(e),
        };
        if d < 0 {
            return Err(RuntimeError::NegativeArraySize(d));
        }
        lens.push(d as usize);
        proof {
            assert(s0.subrange(0, s0.len() - k).drop_last() =~= s0.subrange(0, s0.len() - (k + 1)));
            assert(s0.subrange(0, s0.len() - k).last() == s0[s0.len() - (k + 1)]);
            assert(lens@ =~= multi_lengths(s0, (k + 1) as nat));
        }
        k = k + 1;
    }
    let ghost h0 = heap@;
    proof {
        if ready {
            assert(crate::heap::array_class_available(h0, array_id(id@.package, (id@.class_name)->Array_name, dimensions as nat)));
            assert(id@ == array_id(id@.package, (id@.class_name)->Array_name, dimensions as nat));
        }
    }
    let outer = match init_array(heap, id, lens[dimensions]) {
        Ok(x) => x,
        Err(e) => return Err(e),
    };
    let ghost h1 = heap@;
    proof {
        if ready {
            assert forall|j: nat| 1 <= j < dimensions implies #[trigger] crate::heap::array_class_available(
                h1,
                array_id(id@.package, (id@.class_name)->Array_name, j),
            ) by {
                assert(crate::heap::array_class_available(h0, array_id(id@.package, (id@.class_name)->Array_name, j)));
                crate::heap::lemma_array_class_available_kept(h0, h1, array_id(id@.package, (id@.class_name)->Array_name, j));
            }
        }
    }
    match init_array_rec(heap, id, &lens, outer) {
        Ok(()) => {},
        Err(e) => return Err(e),
    }
    proof {
        assert forall|j: int| 0 <= j < h0.objects.len() implies #[trigger] heap@.objects[j]
            == h0.objects[j] by {
            assert(h1.objects[j] == h0.objects[j]);
        }
        assert forall|c: int| 0 <= c < h0.classes.len() implies #[trigger] heap@.classes[c]
            == h0.classes[c] by {
            assert(h1.classes[c] == h0.classes[c]);
        }
    }
    match push_value(frame, StackValue::Reference(Some(outer))) {
        Ok(()) => Ok(Update::Continue),
        Err(e) => Err(e),
    }
}


// ---------------------------------------------------------------------------------------------
// All instructions

/// What `multianewarray` with the array class `id` does: a class that is no array class is
/// not found; when everything it needs is there it succeeds, popping one length per
/// dimension and pushing a new array of that class whose elements are nested arrays of the
/// popped lengths, leaving every older object alone.
pub open spec fn multi_array_outcome(
    id: &ClassIdentifier,
    before: &Frame,
    after: &Frame,
    h0: HeapModel,
    h1: HeapModel,
    r: Result<Update, RuntimeError>,
) -> bool {
    let s0 = before.operand_stack@;
    let d = (id@.class_name)->Array_dimensions;
    let n = h0.objects.len() as int;
    &&& !id.is_array() ==> r == Err::<Update, RuntimeError>(RuntimeError::ClassNotFound)
    &&& (multi_array_ready(id@, s0, h0) && stack_depth(
        s0.subrange(0, s0.len() - d).push(StackValue::Reference(Some(n as usize))),
    ) <= before.operand_stack.capacity()) ==> r is Ok
    &&& r is Ok ==> {
        &&& id.is_array()
        &&& 1 <= d <= s0.len()
        &&& r == Ok::<Update, RuntimeError>(Update::Continue)
        &&& after.operand_stack@ == s0.subrange(0, s0.len() - d).push(StackValue::Reference(Some(n as usize)))
        &&& keeps_objects_except(h0, h1, -1)
        &&& nested_array(h1, n, id@.package, (id@.class_name)->Array_name, d as nat, multi_lengths(s0, d as nat))
    }
}

/// The outcome of an instruction that leaves the operand stack `res` (before pushing
/// against the maximal depth) and changes nothing else.
pub open spec fn stack_outcome(
    res: Result<Seq<StackValue>, RuntimeError>,
    before: &Frame,
    after: &Frame,
    r: Result<Update, RuntimeError>,
) -> bool {
    match res {
        Ok(s) => if stack_depth(s) <= before.operand_stack.capacity() {
            r == Ok::<Update, RuntimeError>(Update::Continue) && after.operand_stack@ == s
        } else {
            r == Err::<Update, RuntimeError>(RuntimeError::StackOverflow)
        },
        Err(e) => r == Err::<Update, RuntimeError>(e),
    }
}

/// The outcome of an instruction that leaves the heap and operand stack `res`.
pub open spec fn heap_outcome(
    res: Result<(HeapModel, Seq<StackValue>), RuntimeError>,
    before: &Frame,
    after: &Frame,
    h: HeapModel,
    r: Result<Update, RuntimeError>,
) -> bool {
    match res {
        Ok((h2, s)) => if stack_depth(s) <= before.operand_stack.capacity() {
            r == Ok::<Update, RuntimeError>(Update::Continue) && h == h2 && after.operand_stack@
                == s
        } else {
            r == Err::<Update, RuntimeError>(RuntimeError::StackOverflow)
        },
        Err(e) => r == Err::<Update, RuntimeError>(e),
    }
}

/// Whether the machine does not implement an instruction.
pub open spec fn is_unsupported(op: OpCode) -> bool {
    match op {
        OpCode::AconstNull | OpCode::Checkcast(_) | OpCode::Dup(Dup::X1) | OpCode::Dup(Dup::X2)
        | OpCode::Dup2(_) | OpCode::InstanceOf(_) | OpCode::InvokeDynamic(_)
        | OpCode::InvokeInterface(_) | OpCode::Jsr(..) | OpCode::Ret(_) | OpCode::Lookupswitch
        | OpCode::Tableswitch | OpCode::Monitorenter | OpCode::Monitorexit | OpCode::Pop
        | OpCode::Pop2 | OpCode::PutStatic { .. } | OpCode::Swap => true,
        _ => false,
    }
}

/// What running instruction `op` on frame `f0` and heap `h0` does: the frame becomes `f1`,
/// the heap `h1`, and the result is `r`.
pub open spec fn executed(
    op: OpCode,
    f0: Frame,
    h0: Heap,
    f1: Frame,
    h1: Heap,
    r: Result<Update, RuntimeError>,
) -> bool {
    &&& (is_stack_instruction(op) ==> {
        &&& stack_outcome(
            stack_effect(op, f0.operand_stack@),
            &f0,
            &f1,
            r,
        )
        &&& f1.local_variables@ == f0.local_variables@
        &&& h1@ == h0@
    })
    &&& (is_jump_instruction(op) ==> {
        &&& match jump_effect(op, f0.operand_stack@) {
            Ok((s, taken)) => f1.operand_stack@ == s && r == Ok::<
                Update,
                RuntimeError,
            >(
                if taken {
                    Update::GoTo((branch_parts(op)->0).0, (branch_parts(op)->0).1)
                } else {
                    Update::Continue
                },
            ),
            Err(e) => r == Err::<Update, RuntimeError>(e),
        }
        &&& f1.local_variables@ == f0.local_variables@
        &&& h1@ == h0@
    })
    &&& (is_local_instruction(op) ==> {
        &&& match local_effect(
            op,
            f0.local_variables@,
            f0.operand_stack@,
        ) {
            Ok((l, s)) => if stack_depth(s) <= f0.operand_stack.capacity() {
                r == Ok::<Update, RuntimeError>(Update::Continue)
                    && f1.local_variables@ == l && f1.operand_stack@
                    == s
            } else {
                r == Err::<Update, RuntimeError>(RuntimeError::StackOverflow)
            },
            Err(e) => r == Err::<Update, RuntimeError>(e),
        }
        &&& h1@ == h0@
    })
    &&& (is_return_instruction(op) ==> {
        &&& match return_effect(op, f0.operand_stack@) {
            Ok(v) => r == Ok::<Update, RuntimeError>(Update::Return(v)),
            Err(e) => r == Err::<Update, RuntimeError>(e),
        }
        &&& h1@ == h0@
    })
    &&& (is_float_instruction(op) ==> {
        &&& r == Ok::<Update, RuntimeError>(Update::FloatOperation)
        &&& f1.operand_stack@ == f0.operand_stack@
        &&& f1.local_variables@ == f0.local_variables@
        &&& h1@ == h0@
    })
    &&& (is_array_load(op) ==> {
        &&& stack_outcome(
            array_load_effect(op, h0@, f0.operand_stack@),
            &f0,
            &f1,
            r,
        )
        &&& h1@ == h0@
    })
    &&& (is_array_store(op) ==> match array_store_effect(
        op,
        h0@,
        f0.operand_stack@,
    ) {
        Ok(h) => r == Ok::<Update, RuntimeError>(Update::Continue) && h1@ == h
            && f1.operand_stack@ == f0.operand_stack@.drop_last().drop_last().drop_last(),
        Err(e) => r == Err::<Update, RuntimeError>(e),
    })
    &&& (op is ArrayLength ==> {
        &&& stack_outcome(
            array_length_effect(h0@, f0.operand_stack@),
            &f0,
            &f1,
            r,
        )
        &&& h1@ == h0@
    })
    &&& (op matches OpCode::NewArray(t) ==> heap_outcome(
        new_array_effect(t, h0@, f0.operand_stack@),
        &f0,
        &f1,
        h1@,
        r,
    ))
    &&& (op matches OpCode::GetStatic { class, field_name } ==> {
        &&& stack_outcome(
            get_static_effect(class@, field_name@, h0@, f0.operand_stack@),
            &f0,
            &f1,
            r,
        )
        &&& h1@ == h0@
    })
    &&& (op matches OpCode::GetField { class, field_name } ==> {
        &&& stack_outcome(
            get_field_effect(class@, field_name@, h0@, f0.operand_stack@),
            &f0,
            &f1,
            r,
        )
        &&& h1@ == h0@
    })
    &&& (op matches OpCode::PutField { class, field_name } ==> match put_field_effect(
        class@,
        field_name@,
        h0@,
        f0.operand_stack@,
    ) {
        Ok(h) => r == Ok::<Update, RuntimeError>(Update::Continue) && h1@ == h
            && f1.operand_stack@ == f0.operand_stack@.drop_last().drop_last(),
        Err(e) => r == Err::<Update, RuntimeError>(e),
    })
    &&& (op matches OpCode::New(class) ==> heap_outcome(
        new_effect(class@, h0@, f0.operand_stack@),
        &f0,
        &f1,
        h1@,
        r,
    ))
    &&& (op matches OpCode::Ldc(crate::executor::op_code::Ldc::String(text)) ==> heap_outcome(
        ldc_string_effect(text@, h0@, f0.operand_stack@),
        &f0,
        &f1,
        h1@,
        r,
    ))
    &&& (op matches OpCode::InvokeStatic(m) ==> r == invoke_effect(m, true, h0@)
        && h1@ == h0@ && f1.operand_stack@ == f0.operand_stack@)
    &&& (op matches OpCode::InvokeSpecial(m) ==> r == invoke_effect(m, false, h0@)
        && h1@ == h0@ && f1.operand_stack@ == f0.operand_stack@)
    &&& (op matches OpCode::InvokeVirtual(m) ==> r == invoke_effect(m, false, h0@)
        && h1@ == h0@ && f1.operand_stack@ == f0.operand_stack@)
    &&& (op is Athrow ==> r == throw_effect(f0.operand_stack@) && h1@ == h0@)
    &&& (op matches OpCode::AnewArray(id) ==> match top_int(f0.operand_stack@) {
        Err(e) => r == Err::<Update, RuntimeError>(e),
        Ok(size) => if size < 0 {
            r == Err::<Update, RuntimeError>(RuntimeError::NegativeArraySize(size))
        } else if !crate::heap::array_class_available(h0@, id@) {
            r == Err::<Update, RuntimeError>(RuntimeError::ClassNotFound)
        } else if stack_depth(
            f0.operand_stack@.drop_last().push(StackValue::Reference(Some(0))),
        ) > f0.operand_stack.capacity() {
            r == Err::<Update, RuntimeError>(RuntimeError::StackOverflow)
        } else {
            r == Ok::<Update, RuntimeError>(Update::Continue) && new_object_array_effect(
                id@,
                h0@,
                f0.operand_stack@,
                h1@,
                f1.operand_stack@,
            )
        },
    })
    &&& (op matches OpCode::MultiAnewArray(id) ==> multi_array_outcome(
        &id,
        &f0,
        &f1,
        h0@,
        h1@,
        r,
    ))
    &&& (is_unsupported(op) ==> r == Err::<Update, RuntimeError>(RuntimeError::Unsupported)
        && h1@ == h0@)
}

/// Whether the outcome of running `op` is stated by one of the kinds of instructions that
/// [`executed`] describes.
pub open spec fn instruction_described(op: OpCode) -> bool {
    ||| is_stack_instruction(op)
    ||| is_jump_instruction(op)
    ||| is_local_instruction(op)
    ||| is_return_instruction(op)
    ||| is_float_instruction(op)
    ||| is_array_load(op)
    ||| is_array_store(op)
    ||| op is ArrayLength
    ||| op is NewArray
    ||| op is GetStatic
    ||| op is GetField
    ||| op is PutField
    ||| op is New
    ||| op matches OpCode::Ldc(crate::executor::op_code::Ldc::String(_))
    ||| op is InvokeStatic
    ||| op is InvokeSpecial
    ||| op is InvokeVirtual
    ||| op is Athrow
    ||| op is AnewArray
    ||| op is MultiAnewArray
    ||| is_unsupported(op)
}

/// Every instruction's outcome is stated: the contract of [`OpCode::execute`] leaves no
/// instruction out.
pub proof fn lemma_every_instruction_described(op: OpCode)
    ensures
        instruction_described(op),
{
}

impl OpCode {
    /// Runs this instruction on a frame and the heap, and says what the machine does next.
    /// Instructions that compute with floating point numbers are left to the caller
    /// (`Update::FloatOperation`), with frame and heap untouched.
    pub fn execute(&self, frame: &mut Frame, heap: &mut Heap) -> (r: Result<Update, RuntimeError>)
        requires
            old(frame).wf(),
            old(heap).wf(),
        ensures
            final(frame).wf(),
            final(heap).wf(),
            final(frame).operand_stack.capacity() == old(frame).operand_stack.capacity(),
            is_stack_instruction(*self) ==> {
                &&& stack_outcome(
                    stack_effect(*self, old(frame).operand_stack@),
                    old(frame),
                    final(frame),
                    r,
                )
                &&& final(frame).local_variables@ == old(frame).local_variables@
                &&& final(heap)@ == old(heap)@
            },
            is_jump_instruction(*self) ==> {
                &&& match jump_effect(*self, old(frame).operand_stack@) {
                    Ok((s, taken)) => final(frame).operand_stack@ == s && r == Ok::<
                        Update,
                        RuntimeError,
                    >(
                        if taken {
                            Update::GoTo((branch_parts(*self)->0).0, (branch_parts(*self)->0).1)
                        } else {
                            Update::Continue
                        },
                    ),
                    Err(e) => r == Err::<Update, RuntimeError>(e),
                }
                &&& final(frame).local_variables@ == old(frame).local_variables@
                &&& final(heap)@ == old(heap)@
            },
            is_local_instruction(*self) ==> {
                &&& match local_effect(
                    *self,
                    old(frame).local_variables@,
                    old(frame).operand_stack@,
                ) {
                    Ok((l, s)) => if stack_depth(s) <= old(frame).operand_stack.capacity() {
                        r == Ok::<Update, RuntimeError>(Update::Continue)
                            && final(frame).local_variables@ == l && final(frame).operand_stack@
                            == s
                    } else {
                        r == Err::<Update, RuntimeError>(RuntimeError::StackOverflow)
                    },
                    Err(e) => r == Err::<Update, RuntimeError>(e),
                }
                &&& final(heap)@ == old(heap)@
            },
            is_return_instruction(*self) ==> {
                &&& match return_effect(*self, old(frame).operand_stack@) {
                    Ok(v) => r == Ok::<Update, RuntimeError>(Update::Return(v)),
                    Err(e) => r == Err::<Update, RuntimeError>(e),
                }
                &&& final(heap)@ == old(heap)@
            },
            is_float_instruction(*self) ==> {
                &&& r == Ok::<Update, RuntimeError>(Update::FloatOperation)
                &&& final(frame).operand_stack@ == old(frame).operand_stack@
                &&& final(frame).local_variables@ == old(frame).local_variables@
                &&& final(heap)@ == old(heap)@
            },
            is_array_load(*self) ==> {
                &&& stack_outcome(
                    array_load_effect(*self, old(heap)@, old(frame).operand_stack@),
                    old(frame),
                    final(frame),
                    r,
                )
                &&& final(heap)@ == old(heap)@
            },
            is_array_store(*self) ==> match array_store_effect(
                *self,
                old(heap)@,
                old(frame).operand_stack@,
            ) {
                Ok(h) => r == Ok::<Update, RuntimeError>(Update::Continue) && final(heap)@ == h
                    && final(frame).operand_stack@ == old(
                    frame,
                ).operand_stack@.drop_last().drop_last().drop_last(),
                Err(e) => r == Err::<Update, RuntimeError>(e),
            },
            *self is ArrayLength ==> {
                &&& stack_outcome(
                    array_length_effect(old(heap)@, old(frame).operand_stack@),
                    old(frame),
                    final(frame),
                    r,
                )
                &&& final(heap)@ == old(heap)@
            },
            *self matches OpCode::NewArray(t) ==> heap_outcome(
                new_array_effect(t, old(heap)@, old(frame).operand_stack@),
                old(frame),
                final(frame),
                final(heap)@,
                r,
            ),
            *self matches OpCode::GetStatic { class, field_name } ==> {
                &&& stack_outcome(
                    get_static_effect(class@, field_name@, old(heap)@, old(frame).operand_stack@),
                    old(frame),
                    final(frame),
                    r,
                )
                &&& final(heap)@ == old(heap)@
            },
            *self matches OpCode::GetField { class, field_name } ==> {
                &&& stack_outcome(
                    get_field_effect(class@, field_name@, old(heap)@, old(frame).operand_stack@),
                    old(frame),
                    final(frame),
                    r,
                )
                &&& final(heap)@ == old(heap)@
            },
            *self matches OpCode::PutField { class, field_name } ==> match put_field_effect(
                class@,
                field_name@,
                old(heap)@,
                old(frame).operand_stack@,
            ) {
                Ok(h) => r == Ok::<Update, RuntimeError>(Update::Continue) && final(heap)@ == h
                    && final(frame).operand_stack@ == old(
                    frame,
                ).operand_stack@.drop_last().drop_last(),
                Err(e) => r == Err::<Update, RuntimeError>(e),
            },
            *self matches OpCode::New(class) ==> heap_outcome(
                new_effect(class@, old(heap)@, old(frame).operand_stack@),
                old(frame),
                final(frame),
                final(heap)@,
                r,
            ),
            *self matches OpCode::Ldc(crate::executor::op_code::Ldc::String(text)) ==> heap_outcome(
                ldc_string_effect(text@, old(heap)@, old(frame).operand_stack@),
                old(frame),
                final(frame),
                final(heap)@,
                r,
            ),
            *self matches OpCode::InvokeStatic(m) ==> r == invoke_effect(m, true, old(heap)@)
                && final(heap)@ == old(heap)@ && final(frame).operand_stack@ == old(
                frame,
            ).operand_stack@,
            *self matches OpCode::InvokeSpecial(m) ==> r == invoke_effect(m, false, old(heap)@)
                && final(heap)@ == old(heap)@ && final(frame).operand_stack@ == old(
                frame,
            ).operand_stack@,
            *self matches OpCode::InvokeVirtual(m) ==> r == invoke_effect(m, false, old(heap)@)
                && final(heap)@ == old(heap)@ && final(frame).operand_stack@ == old(
                frame,
            ).operand_stack@,
            *self is Athrow ==> r == throw_effect(old(frame).operand_stack@) && final(heap)@ == old(
                heap,
            )@,
            *self matches OpCode::AnewArray(id) ==> match top_int(old(frame).operand_stack@) {
                Err(e) => r == Err::<Update, RuntimeError>(e),
                Ok(size) => if size < 0 {
                    r == Err::<Update, RuntimeError>(RuntimeError::NegativeArraySize(size))
                } else if !crate::heap::array_class_available(old(heap)@, id@) {
                    r == Err::<Update, RuntimeError>(RuntimeError::ClassNotFound)
                } else if stack_depth(
                    old(frame).operand_stack@.drop_last().push(StackValue::Reference(Some(0))),
                ) > old(frame).operand_stack.capacity() {
                    r == Err::<Update, RuntimeError>(RuntimeError::StackOverflow)
                } else {
                    r == Ok::<Update, RuntimeError>(Update::Continue) && new_object_array_effect(
                        id@,
                        old(heap)@,
                        old(frame).operand_stack@,
                        final(heap)@,
                        final(frame).operand_stack@,
                    )
                },
            },
            *self matches OpCode::MultiAnewArray(id) ==> multi_array_outcome(
                &id,
                old(frame),
                final(frame),
                old(heap)@,
                final(heap)@,
                r,
            ),
            is_unsupported(*self) ==> r == Err::<Update, RuntimeError>(RuntimeError::Unsupported)
                && final(heap)@ == old(heap)@,
    {
        match self {
            OpCode::Aaload | OpCode::Baload | OpCode::Caload | OpCode::Saload | OpCode::Iaload
            | OpCode::Laload | OpCode::Faload | OpCode::Daload => execute_array_load(self, frame, heap),
            OpCode::Aastore | OpCode::Bastore | OpCode::Castore | OpCode::Sastore
            | OpCode::Iastore | OpCode::Lastore | OpCode::Fastore | OpCode::Dastore => {
                execute_array_store(self, frame, heap)
            },
            OpCode::Aload(_) | OpCode::Dload(_) | OpCode::Fload(_) | OpCode::Iload(_)
            | OpCode::Lload(_) | OpCode::Astore(_) | OpCode::Dstore(_) | OpCode::Fstore(_)
            | OpCode::Istore(_) | OpCode::Lstore(_) | OpCode::Iinc { .. } => execute_local(self, frame),
            OpCode::AnewArray(id) => execute_new_object_array(id, frame, heap),
            OpCode::MultiAnewArray(id) => execute_multi_new_array(id, frame, heap),
            OpCode::NewArray(t) => execute_new_array(*t, frame, heap),
            OpCode::ArrayLength => execute_array_length(frame, heap),
            OpCode::Athrow => execute_throw(frame),
            OpCode::Ireturn | OpCode::Lreturn | OpCode::Freturn | OpCode::Dreturn
            | OpCode::Areturn | OpCode::Return => execute_return(self, frame),
            OpCode::IfEq(..) | OpCode::IfNe(..) | OpCode::IfLt(..) | OpCode::IfGe(..)
            | OpCode::IfGt(..) | OpCode::IfLe(..) | OpCode::IficmpEq(..) | OpCode::IficmpNe(..)
            | OpCode::IficmpLt(..) | OpCode::IficmpGe(..) | OpCode::IficmpGt(..)
            | OpCode::IficmpLe(..) | OpCode::IfacmpEq(..) | OpCode::IfacmpNe(..)
            | OpCode::Goto(..) | OpCode::IfNull(..) | OpCode::IfNonNull(..) => execute_jump(self, frame),
            OpCode::GetStatic { class, field_name } => execute_get_static(class, field_name, frame, heap),
            OpCode::GetField { class, field_name } => execute_get_field(class, field_name, frame, heap),
            OpCode::PutField { class, field_name } => execute_put_field(class, field_name, frame, heap),
            OpCode::New(class) => execute_new(class, frame, heap),
            OpCode::Ldc(crate::executor::op_code::Ldc::String(text)) => execute_ldc_string(text, frame, heap),
            OpCode::InvokeStatic(m) => execute_invoke(m, true, heap),
            OpCode::InvokeSpecial(m) => execute_invoke(m, false, heap),
            OpCode::InvokeVirtual(m) => execute_invoke(m, false, heap),
            OpCode::D2f | OpCode::D2i | OpCode::D2l | OpCode::Dadd | OpCode::Dcmp(_)
            | OpCode::Ddiv | OpCode::Dmul | OpCode::Dneg | OpCode::Drem | OpCode::Dsub
            | OpCode::F2d | OpCode::F2i | OpCode::F2l | OpCode::Fadd | OpCode::Fcmp(_)
            | OpCode::Fdiv | OpCode::Fmul | OpCode::Fneg | OpCode::Frem | OpCode::Fsub
            | OpCode::I2d | OpCode::I2f | OpCode::L2d | OpCode::L2f => Ok(Update::FloatOperation),
            OpCode::AconstNull | OpCode::Checkcast(_) | OpCode::Dup(Dup::X1) | OpCode::Dup(Dup::X2)
            | OpCode::Dup2(_) | OpCode::InstanceOf(_) | OpCode::InvokeDynamic(_)
            | OpCode::InvokeInterface(_) | OpCode::Jsr(..) | OpCode::Ret(_) | OpCode::Lookupswitch
            | OpCode::Tableswitch | OpCode::Monitorenter | OpCode::Monitorexit | OpCode::Pop
            | OpCode::Pop2 | OpCode::PutStatic { .. } | OpCode::Swap => Err(RuntimeError::Unsupported),
            _ => execute_stack_instruction(self, frame),
        }
    }
}


// ---------------------------------------------------------------------------------------------
// Class relations

/// The index of the first static field of class `class` named `name`.
pub fn get_static_field(heap: &Heap, class: usize, name: &str) -> (r: Option<usize>)
    ensures
        class >= heap@.classes.len() ==> r is None,
        class < heap@.classes.len() ==> r == match first_named(heap@.classes[class as int].static_fields, name@) {
            Some(k) => Some(k as usize),
            None => None::<usize>,
        },
{
    if class >= heap.classes.len() {
        return None;
    }
    assert(heap@.classes[class as int].static_fields == crate::class::members::fields_view(
        heap.classes@[class as int].static_fields@,
    ));
    find_field(&heap.classes[class].static_fields, name)
}

/// The class `n` steps up the superclass chain of class `c` (`c` itself for 0 steps).
pub open spec fn ancestor(h: HeapModel, c: int, n: nat) -> Option<int>
    decreases n,
{
    if n == 0 {
        Some(c)
    } else {
        match ancestor(h, c, (n - 1) as nat) {
            Some(a) => if 0 <= a < h.classes.len() {
                match h.classes[a].super_class {
                    Some(s) => Some(s as int),
                    None => None,
                }
            } else {
                None
            },
            None => None,
        }
    }
}

/// Whether some proper ancestor of class `c`, at most as many steps up as there are
/// classes, has the identifier `id`.
pub open spec fn has_ancestor(h: HeapModel, c: int, id: crate::class::ClassIdentifierModel) -> bool {
    exists|n: nat| 1 <= n <= h.classes.len() && #[trigger] ancestor_is(h, c, n, id)
}

/// Whether the class `n` steps up the chain of `c` exists and has the identifier `id`.
pub open spec fn ancestor_is(h: HeapModel, c: int, n: nat, id: crate::class::ClassIdentifierModel) -> bool {
    match ancestor(h, c, n) {
        Some(a) => 0 <= a < h.classes.len() && h.classes[a].identifier == id,
        None => false,
    }
}

/// Whether class `c` is a (direct or indirect) subclass of class `other`: some superclass
/// of `c` has the identifier of `other`.
pub fn is_sub_class_of(heap: &Heap, c: usize, other: usize) -> (r: bool)
    requires
        other < heap@.classes.len(),
    ensures
        r == has_ancestor(heap@, c as int, heap@.classes[other as int].identifier),
{
    let ghost id = heap@.classes[other as int].identifier;
    assert(heap@.classes[other as int] == heap.classes@[other as int]@);
    let target = &heap.classes[other].class_identifier;
    let n = heap.classes.len();
    let mut current: usize = c;
    let mut k: usize = 0;
    while k < n
        invariant
            n == heap@.classes.len(),
            k <= n,
            target@ == id,
            other < heap@.classes.len(),
            id == heap@.classes[other as int].identifier,
            ancestor(heap@, c as int, k as nat) == Some(current as int),
            forall|j: nat| 1 <= j <= k ==> !#[trigger] ancestor_is(heap@, c as int, j, id),
        decreases n - k,
    {
        if current >= heap.classes.len() {
            proof {
                lemma_no_ancestor_after(heap@, c as int, k as nat, id);
            }
            return false;
        }
        assert(heap@.classes[current as int] == heap.classes@[current as int]@);
        match heap.classes[current].super_class {
            Some(s) => {
                assert(ancestor(heap@, c as int, (k + 1) as nat) == Some(s as int));
                if s < heap.classes.len() {
                    assert(heap@.classes[s as int] == heap.classes@[s as int]@);
                    if heap.classes[s].class_identifier.equals(target) {
                        assert(ancestor_is(heap@, c as int, (k + 1) as nat, id));
                        return true;
                    }
                }
                current = s;
            },
            None => {
                proof {
                    lemma_no_ancestor_after(heap@, c as int, (k + 1) as nat, id);
                }
                return false;
            },
        }
        k = k + 1;
    }
    false
}

/// Once the chain ends, no further step up reaches a class.
proof fn lemma_no_ancestor_after(h: HeapModel, c: int, k: nat, id: crate::class::ClassIdentifierModel)
    requires
        ancestor(h, c, k) is None || !(0 <= ancestor(h, c, k)->0 < h.classes.len()),
    ensures
        forall|j: nat| j > k ==> (#[trigger] ancestor(h, c, j)) is None,
{
    assert forall|j: nat| j > k implies (#[trigger] ancestor(h, c, j)) is None by {
        lemma_ancestor_none(h, c, k, j);
    }
}

proof fn lemma_ancestor_none(h: HeapModel, c: int, k: nat, j: nat)
    requires
        ancestor(h, c, k) is None || !(0 <= ancestor(h, c, k)->0 < h.classes.len()),
        j > k,
    ensures
        ancestor(h, c, j) is None,
    decreases j - k,
{
    if j > k + 1 {
        lemma_ancestor_none(h, c, k, (j - 1) as nat);
    }
}

/// Whether class `c` is a (direct or indirect) superclass of class `other`.
pub fn is_super_class_of(heap: &Heap, c: usize, other: usize) -> (r: bool)
    requires
        c < heap@.classes.len(),
    ensures
        r == has_ancestor(heap@, other as int, heap@.classes[c as int].identifier),
{
    is_sub_class_of(heap, other, c)
}

} // verus!
