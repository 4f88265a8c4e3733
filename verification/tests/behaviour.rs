use cmjava::access_flags::{ClassAccessFlag, FieldAccessFlag, MethodAccessFlag};
use cmjava::class::builtin_classes::throwable::throwable_class;
use cmjava::class::members::{FieldValue, MethodCode, NativeMethod};
use cmjava::class::{parse_class_identifier, ArgumentKind, SimpleArgumentKind};
use cmjava::executor::execute_heap::{get_method, get_static_field, is_sub_class_of};
use cmjava::executor::frame_stack::{FrameStack, StackValue};
use cmjava::executor::local_variables::{LocalVariables, VariableValueOrValue};
use cmjava::executor::machine::{Machine, MachineError};
use cmjava::executor::natives::{decimal_text, println_line};
use cmjava::executor::op_code::{ArrayType, MethodDescriptor, OffsetDirection, OpCode, SymbolicMethod};
use cmjava::executor::{Frame, ReturnValue, RuntimeError, Update, ValueKind};
use cmjava::heap::{ClassKind, Heap, ObjectData, RuntimeClass};
use cmjava::version::{long_version, BuildDetails};

fn frame_with(stack: &[StackValue], depth: usize) -> Frame {
    let mut operand_stack = FrameStack::new(depth);
    for v in stack {
        assert!(operand_stack.push(*v).is_ok());
    }
    Frame { local_variables: LocalVariables::new(4), operand_stack }
}

fn run(op: OpCode, stack: &[StackValue]) -> (Result<Update, RuntimeError>, Frame) {
    let mut heap = Heap::new();
    let mut frame = frame_with(stack, 8);
    let r = op.execute(&mut frame, &mut heap);
    (r, frame)
}

fn int_result(op: OpCode, stack: &[StackValue]) -> i32 {
    let (r, mut frame) = run(op, stack);
    assert!(matches!(r, Ok(Update::Continue)));
    match frame.operand_stack.pop() {
        Some(StackValue::Int(v)) => v,
        _ => panic!("no int result"),
    }
}

#[test]
fn int_arithmetic_follows_java() {
    assert_eq!(int_result(OpCode::Iadd, &[StackValue::Int(2), StackValue::Int(3)]), 5);
    assert_eq!(int_result(OpCode::Iadd, &[StackValue::Int(i32::MAX), StackValue::Int(1)]), i32::MIN);
    assert_eq!(int_result(OpCode::Isub, &[StackValue::Int(2), StackValue::Int(5)]), -3);
    assert_eq!(int_result(OpCode::Imul, &[StackValue::Int(-4), StackValue::Int(6)]), -24);
    assert_eq!(int_result(OpCode::Idiv, &[StackValue::Int(-7), StackValue::Int(2)]), -3);
    assert_eq!(int_result(OpCode::Irem, &[StackValue::Int(-7), StackValue::Int(2)]), -1);
    assert_eq!(int_result(OpCode::Idiv, &[StackValue::Int(i32::MIN), StackValue::Int(-1)]), i32::MIN);
    assert_eq!(int_result(OpCode::Ishl, &[StackValue::Int(1), StackValue::Int(33)]), 2);
    assert_eq!(int_result(OpCode::Iushr, &[StackValue::Int(-1), StackValue::Int(28)]), 15);
    assert_eq!(int_result(OpCode::Ishr, &[StackValue::Int(-16), StackValue::Int(2)]), -4);
    assert_eq!(int_result(OpCode::Ineg, &[StackValue::Int(i32::MIN)]), i32::MIN);
    assert_eq!(int_result(OpCode::I2b, &[StackValue::Int(200)]), -56);
    assert_eq!(int_result(OpCode::I2c, &[StackValue::Int(-1)]), 65535);
}

#[test]
fn long_comparison_gives_the_sign() {
    let less = [StackValue::Long(1), StackValue::Long(2)];
    assert_eq!(int_result(OpCode::Lcmp, &less), -1);
    let equal = [StackValue::Long(7), StackValue::Long(7)];
    assert_eq!(int_result(OpCode::Lcmp, &equal), 0);
    let greater = [StackValue::Long(i64::MAX), StackValue::Long(i64::MIN)];
    assert_eq!(int_result(OpCode::Lcmp, &greater), 1);
}

#[test]
fn division_by_zero_is_refused() {
    let (r, _) = run(OpCode::Idiv, &[StackValue::Int(1), StackValue::Int(0)]);
    assert!(matches!(r, Err(RuntimeError::DivisionByZero)));
    let (r, _) = run(OpCode::Lrem, &[StackValue::Long(1), StackValue::Long(0)]);
    assert!(matches!(r, Err(RuntimeError::DivisionByZero)));
}

#[test]
fn operands_of_the_wrong_kind_are_refused() {
    let (r, _) = run(OpCode::Iadd, &[StackValue::Int(1), StackValue::Long(2)]);
    assert_eq!(
        r.err(),
        Some(RuntimeError::InvalidType { expected: ValueKind::Int, actual: ValueKind::Long })
    );
}

#[test]
fn the_stack_limits_are_kept() {
    let (r, _) = run(OpCode::Iadd, &[StackValue::Int(1)]);
    assert_eq!(r.err(), Some(RuntimeError::StackUnderflow));
    let mut heap = Heap::new();
    let mut frame = frame_with(&[StackValue::Int(1)], 1);
    let r = OpCode::Iconst(2).execute(&mut frame, &mut heap);
    assert_eq!(r.err(), Some(RuntimeError::StackOverflow));
}

#[test]
fn conditional_jumps_depend_on_the_value() {
    let (r, _) = run(OpCode::IfEq(2, OffsetDirection::Forward), &[StackValue::Int(0)]);
    assert!(matches!(r, Ok(Update::GoTo(2, OffsetDirection::Forward))));
    let (r, _) = run(OpCode::IfEq(2, OffsetDirection::Forward), &[StackValue::Int(4)]);
    assert!(matches!(r, Ok(Update::Continue)));
    let (r, _) = run(
        OpCode::IficmpLt(3, OffsetDirection::Backward),
        &[StackValue::Int(1), StackValue::Int(2)],
    );
    assert!(matches!(r, Ok(Update::GoTo(3, OffsetDirection::Backward))));
}

#[test]
fn returns_carry_their_value() {
    let (r, _) = run(OpCode::Ireturn, &[StackValue::Int(42)]);
    assert!(matches!(r, Ok(Update::Return(ReturnValue::Int(42)))));
    let (r, _) = run(OpCode::Return, &[]);
    assert!(matches!(r, Ok(Update::Return(ReturnValue::Void))));
}

#[test]
fn local_instructions_move_values() {
    let mut heap = Heap::new();
    let mut frame = frame_with(&[StackValue::Int(9)], 4);
    assert!(matches!(OpCode::Istore(2).execute(&mut frame, &mut heap), Ok(Update::Continue)));
    assert!(matches!(
        OpCode::Iinc { index: 2, constant: -4 }.execute(&mut frame, &mut heap),
        Ok(Update::Continue)
    ));
    assert!(matches!(OpCode::Iload(2).execute(&mut frame, &mut heap), Ok(Update::Continue)));
    assert_eq!(frame.operand_stack.pop(), Some(StackValue::Int(5)));
    let r = OpCode::Iload(3).execute(&mut frame, &mut heap);
    assert_eq!(r.err(), Some(RuntimeError::InvalidLocalVariable(3)));
}

#[test]
fn a_stored_value_loads_back_whatever_its_kind() {
    let cases = [
        (StackValue::Int(-7), OpCode::Istore(1), OpCode::Iload(1)),
        (StackValue::Long(i64::MIN + 3), OpCode::Lstore(1), OpCode::Lload(1)),
        (StackValue::Float(0x4049_0fdb), OpCode::Fstore(1), OpCode::Fload(1)),
        (StackValue::Double(0x4009_21fb_5444_2d18), OpCode::Dstore(1), OpCode::Dload(1)),
        (StackValue::Reference(Some(1)), OpCode::Astore(1), OpCode::Aload(1)),
        (StackValue::Reference(None), OpCode::Astore(1), OpCode::Aload(1)),
    ];
    for (value, store, load) in cases {
        let mut heap = Heap::new();
        let mut frame = frame_with(&[StackValue::Int(3), value], 4);
        assert!(matches!(store.execute(&mut frame, &mut heap), Ok(Update::Continue)));
        assert_eq!(frame.operand_stack.depth(), 1);
        assert!(matches!(load.execute(&mut frame, &mut heap), Ok(Update::Continue)));
        assert_eq!(frame.operand_stack.pop(), Some(value));
        assert_eq!(frame.operand_stack.pop(), Some(StackValue::Int(3)));
    }
}

#[test]
fn arrays_are_made_read_and_written() {
    let mut heap = Heap::new();
    let mut frame = frame_with(&[StackValue::Int(3)], 8);
    assert!(matches!(OpCode::NewArray(ArrayType::Int).execute(&mut frame, &mut heap), Ok(Update::Continue)));
    let array = frame.operand_stack.pop().expect("a reference");
    assert!(matches!(array, StackValue::Reference(Some(_))));
    for v in [array, StackValue::Int(1), StackValue::Int(77)] {
        assert!(frame.operand_stack.push(v).is_ok());
    }
    assert!(matches!(OpCode::Iastore.execute(&mut frame, &mut heap), Ok(Update::Continue)));
    for v in [array, StackValue::Int(1)] {
        assert!(frame.operand_stack.push(v).is_ok());
    }
    assert!(matches!(OpCode::Iaload.execute(&mut frame, &mut heap), Ok(Update::Continue)));
    assert_eq!(frame.operand_stack.pop(), Some(StackValue::Int(77)));
    assert!(frame.operand_stack.push(array).is_ok());
    assert!(matches!(OpCode::ArrayLength.execute(&mut frame, &mut heap), Ok(Update::Continue)));
    assert_eq!(frame.operand_stack.pop(), Some(StackValue::Int(3)));
    for v in [array, StackValue::Int(5)] {
        assert!(frame.operand_stack.push(v).is_ok());
    }
    let r = OpCode::Iaload.execute(&mut frame, &mut heap);
    assert_eq!(r.err(), Some(RuntimeError::ArrayIndexOutOfBounds { length: 3, index: 5 }));
    let mut frame = frame_with(&[StackValue::Int(-1)], 8);
    let r = OpCode::NewArray(ArrayType::Byte).execute(&mut frame, &mut heap);
    assert_eq!(r.err(), Some(RuntimeError::NegativeArraySize(-1)));
    let mut frame = frame_with(&[StackValue::Reference(None)], 8);
    let r = OpCode::ArrayLength.execute(&mut frame, &mut heap);
    assert_eq!(r.err(), Some(RuntimeError::NullPointer));
}

#[test]
fn throwing_null_is_a_null_pointer() {
    let (r, _) = run(OpCode::Athrow, &[StackValue::Reference(None)]);
    assert_eq!(r.err(), Some(RuntimeError::NullPointer));
    let (r, _) = run(OpCode::Athrow, &[StackValue::Reference(Some(0))]);
    assert!(matches!(r, Ok(Update::Exception(0))));
}

#[test]
fn reads_the_static_field_of_system() {
    let mut heap = Heap::new();
    let system = heap
        .find_class(&parse_class_identifier("java/lang/System").expect("name"))
        .expect("System exists");
    assert!(get_static_field(&heap, system, "out").is_some());
    assert!(get_static_field(&heap, system, "err").is_none());
    let mut frame = frame_with(&[], 4);
    let op = OpCode::GetStatic {
        class: parse_class_identifier("java/lang/System").expect("name"),
        field_name: "out".to_string(),
    };
    assert!(matches!(op.execute(&mut frame, &mut heap), Ok(Update::Continue)));
    assert_eq!(frame.operand_stack.pop(), Some(StackValue::Reference(Some(0))));
}

#[test]
fn a_class_is_no_subclass_of_itself() {
    let heap = Heap::new();
    let object = heap
        .find_class(&parse_class_identifier("java/lang/Object").expect("name"))
        .expect("Object exists");
    assert!(!is_sub_class_of(&heap, object, object));
}

#[test]
fn finds_and_makes_array_classes() {
    let mut heap = Heap::new();
    let ints = parse_class_identifier("[I").expect("name");
    let known = heap.find_class(&ints).expect("int arrays are built in");
    assert_eq!(heap.find_array_class(&ints), Some(known));
    let nested = parse_class_identifier("[[I").expect("name");
    assert!(heap.find_class(&nested).is_none());
    let made = heap.find_array_class(&nested).expect("made on demand");
    assert_eq!(heap.find_class(&nested), Some(made));
}

#[test]
fn making_an_array_class_makes_those_of_fewer_dimensions() {
    let mut heap = Heap::new();
    let count = heap.classes.len();
    let strings3 = parse_class_identifier("[[[Ljava/lang/String;").expect("name");
    let made = heap.find_array_class(&strings3).expect("String exists");
    assert_eq!(heap.classes.len(), count + 3);
    assert_eq!(made, count + 2);
    assert_eq!(heap.find_class(&strings3), Some(made));
    let strings1 = parse_class_identifier("[Ljava/lang/String;").expect("name");
    let strings2 = parse_class_identifier("[[Ljava/lang/String;").expect("name");
    assert_eq!(heap.find_class(&strings1), Some(count));
    assert_eq!(heap.find_class(&strings2), Some(count + 1));
    assert_eq!(heap.find_array_class(&strings2), Some(count + 1));
    assert_eq!(heap.classes.len(), count + 3);
    let missing = parse_class_identifier("[[LNoSuchClass;").expect("name");
    assert!(heap.find_array_class(&missing).is_none());
    assert_eq!(heap.classes.len(), count + 3);
}

#[test]
fn allocates_strings_and_arrays() {
    let mut heap = Heap::new();
    let before = heap.objects.len();
    assert_eq!(heap.new_string("hi".to_string()), Some(before));
    assert_eq!(heap.new_int_array(2), Some(before + 1));
    assert_eq!(heap.new_boolean_array(0), Some(before + 2));
    assert_eq!(heap.objects.len(), before + 3);
}

#[test]
fn formats_decimal_numbers() {
    assert_eq!(decimal_text(0), "0");
    assert_eq!(decimal_text(1234567), "1234567");
    assert_eq!(decimal_text(-42), "-42");
    assert_eq!(decimal_text(i64::MIN), "-9223372036854775808");
    assert_eq!(decimal_text(i64::MAX), "9223372036854775807");
}

#[test]
fn print_lines_follow_the_argument() {
    let mut heap = Heap::new();
    let text = heap.new_string("hello".to_string()).expect("a string class");
    let array = heap.new_int_array(1).expect("an int array class");
    let this = StackValue::Reference(Some(0));
    let line = |heap: &Heap, m: NativeMethod, v: StackValue| println_line(heap, m, &vec![this, v]);
    assert_eq!(line(&heap, NativeMethod::PrintlnInt, StackValue::Int(-5)), Ok("-5".to_string()));
    assert_eq!(
        line(&heap, NativeMethod::PrintlnLong, StackValue::Long(10_000_000_000)),
        Ok("10000000000".to_string())
    );
    assert_eq!(line(&heap, NativeMethod::PrintlnBoolean, StackValue::Int(1)), Ok("true".to_string()));
    assert_eq!(line(&heap, NativeMethod::PrintlnBoolean, StackValue::Int(0)), Ok("false".to_string()));
    assert_eq!(
        line(&heap, NativeMethod::PrintlnBoolean, StackValue::Int(2)),
        Err(RuntimeError::ValueOutOfRange(2))
    );
    assert_eq!(line(&heap, NativeMethod::PrintlnChar, StackValue::Int(65)), Ok("A".to_string()));
    assert_eq!(
        line(&heap, NativeMethod::PrintlnChar, StackValue::Int(0xD800)),
        Ok("\u{FFFD}".to_string())
    );
    assert_eq!(
        line(&heap, NativeMethod::PrintlnString, StackValue::Reference(Some(text))),
        Ok("hello".to_string())
    );
    assert_eq!(
        line(&heap, NativeMethod::PrintlnString, StackValue::Reference(None)),
        Err(RuntimeError::NullPointer)
    );
    assert_eq!(
        line(&heap, NativeMethod::PrintlnString, StackValue::Reference(Some(array))),
        Err(RuntimeError::NotAString)
    );
    assert_eq!(
        line(&heap, NativeMethod::PrintlnObject, StackValue::Reference(None)),
        Ok("null".to_string())
    );
    assert_eq!(
        line(&heap, NativeMethod::PrintlnObject, StackValue::Reference(Some(text))),
        Ok(format!("java/lang/String@{}", text))
    );
    assert_eq!(
        line(&heap, NativeMethod::PrintlnObject, StackValue::Reference(Some(array))),
        Ok(format!("[I@{}", array))
    );
    assert_eq!(
        line(&heap, NativeMethod::PrintlnInt, StackValue::Long(1)),
        Err(RuntimeError::InvalidType { expected: ValueKind::Int, actual: ValueKind::Long })
    );
    assert_eq!(
        line(&heap, NativeMethod::PrintlnDouble, StackValue::Double(0)),
        Err(RuntimeError::Unsupported)
    );
}

#[test]
fn writes_class_identifiers() {
    let id = parse_class_identifier("java/lang/String").expect("name");
    assert_eq!(id.display_text(), "java/lang/String");
    let id = parse_class_identifier("[[Ljava/lang/String;").expect("name");
    assert_eq!(id.display_text(), "[[java/lang/String");
    let id = parse_class_identifier("[J").expect("name");
    assert_eq!(id.display_text(), "[J");
}

#[test]
fn access_flags_have_their_bits() {
    assert_eq!(ClassAccessFlag::Public.bit(), 0x0001);
    assert_eq!(ClassAccessFlag::Super.bit(), 0x0020);
    assert_eq!(ClassAccessFlag::Enum.bit(), 0x4000);
    assert_eq!(FieldAccessFlag::Volatile.bit(), 0x0040);
    assert_eq!(MethodAccessFlag::Static.bit(), 0x0008);
    assert_eq!(MethodAccessFlag::Vargs.bit(), 0x0080);
}

#[test]
fn the_long_version_lists_every_detail() {
    let d = |s: &str| s.to_string();
    let details = BuildDetails {
        features: d("default"),
        build_timestamp: d("t"),
        describe: d("v1"),
        commit_sha: d("abc"),
        commit_timestamp: d("t2"),
        commit_branch: d("main"),
        rustc_semver: d("1.80.0"),
        rustc_channel: d("stable"),
        rustc_commit_sha: d("def"),
        rustc_host_triple: d("x86_64"),
        cargo_debug: d("false"),
        cargo_opt_level: d("3"),
        cargo_target_triple: d("x86_64"),
        build_os: d("Linux"),
    };
    let text = long_version("0.1.0", &details);
    let expected = "0.1.0\nfeatures: default\nbuild timestamp: t\ndescribe: v1\ncommit sha: abc\n\
commit timestamp: t2\ncommit branch: main\nrustc semver: 1.80.0\nrustc channel: stable\n\
rustc commit sha: def\nrustc host triple: x86_64\ncargo debug: false\ncargo opt-level: 3\n\
cargo target-triple: x86_64\nbuild os: Linux";
    assert_eq!(text, expected);
}

#[test]
fn machine_errors_compare() {
    assert_eq!(MachineError::Runtime(RuntimeError::StackOverflow), MachineError::Runtime(RuntimeError::StackOverflow));
}

fn array_values(heap: &Heap, i: usize) -> Vec<StackValue> {
    match &heap.objects[i].data {
        ObjectData::Array { values, .. } => values
            .iter()
            .map(|v| match v {
                FieldValue::Reference(r) => StackValue::Reference(*r),
                FieldValue::Int(x) => StackValue::Int(*x),
                _ => StackValue::Int(-1),
            })
            .collect(),
        _ => panic!("object {} is no array", i),
    }
}

#[test]
fn multianewarray_nests_arrays_of_the_popped_lengths() {
    let mut heap = Heap::new();
    let before = heap.objects.len();
    let mut frame = frame_with(&[StackValue::Int(2), StackValue::Int(3)], 8);
    let op = OpCode::MultiAnewArray(parse_class_identifier("[[I").expect("name"));
    assert!(matches!(op.execute(&mut frame, &mut heap), Ok(Update::Continue)));
    assert_eq!(frame.operand_stack.pop(), Some(StackValue::Reference(Some(before))));
    let outer = array_values(&heap, before);
    assert_eq!(outer.len(), 2);
    for v in outer {
        match v {
            StackValue::Reference(Some(k)) => {
                assert!(k > before);
                assert_eq!(array_values(&heap, k), vec![StackValue::Int(0); 3]);
                let class = heap.objects[k].class;
                assert_eq!(heap.classes[class].class_identifier.display_text(), "[I");
            },
            _ => panic!("the outer array holds no reference"),
        }
    }
    let class = heap.objects[before].class;
    assert_eq!(heap.classes[class].class_identifier.display_text(), "[[I");
    let mut frame = frame_with(&[StackValue::Int(2), StackValue::Int(-3)], 8);
    let r = op.execute(&mut frame, &mut heap);
    assert_eq!(r.err(), Some(RuntimeError::NegativeArraySize(-3)));
    let mut frame = frame_with(&[StackValue::Int(2)], 8);
    let op = OpCode::MultiAnewArray(parse_class_identifier("java/lang/String").expect("name"));
    assert_eq!(op.execute(&mut frame, &mut heap).err(), Some(RuntimeError::ClassNotFound));
}

#[test]
fn a_new_heap_holds_the_builtin_classes() {
    let heap = Heap::new();
    let names: Vec<String> = heap.classes.iter().map(|c| c.class_identifier.display_text()).collect();
    assert_eq!(
        names,
        vec![
            "java/lang/Object",
            "java/lang/String",
            "java/io/PrintStream",
            "java/io/InputStream",
            "java/io/FileInputStream",
            "java/lang/System",
            "[Z",
            "[B",
            "[C",
            "[D",
            "[F",
            "[J",
            "[I",
            "[S",
        ]
    );
    assert_eq!(heap.classes[2].methods.len(), 8);
    assert!(heap.classes[2].methods.iter().all(|m| m.name == "println"));
    assert_eq!(heap.objects.len(), 2);
    assert_eq!(heap.objects[0].class, 2);
    assert_eq!(heap.objects[1].class, 3);
}

#[test]
fn the_throwable_class_records_and_gives_its_message() {
    let throwable = throwable_class();
    assert_eq!(throwable.class_identifier.display_text(), "java/lang/Throwable");
    assert_eq!(throwable.methods.len(), 2);
    assert_eq!(throwable.methods[0].name, "<init>");
    assert_eq!(throwable.methods[1].name, "get_message");
    assert!(matches!(throwable.methods[0].code, MethodCode::Native(NativeMethod::ThrowableInit)));
    assert!(matches!(throwable.methods[1].code, MethodCode::Native(NativeMethod::ThrowableGetMessage)));
}

#[test]
fn missing_members_and_objects_are_reported() {
    let mut heap = Heap::new();
    let mut frame = frame_with(&[], 4);
    let op = OpCode::GetStatic {
        class: parse_class_identifier("java/lang/System").expect("name"),
        field_name: "err".to_string(),
    };
    assert_eq!(op.execute(&mut frame, &mut heap).err(), Some(RuntimeError::FieldNotFound));
    let op = OpCode::InvokeStatic(SymbolicMethod {
        class_name: parse_class_identifier("java/lang/System").expect("name"),
        descriptor: MethodDescriptor { name: "exit".to_string(), descriptor: (vec![], None) },
    });
    assert_eq!(op.execute(&mut frame, &mut heap).err(), Some(RuntimeError::MethodNotFound));
    let this = StackValue::Reference(Some(0));
    assert_eq!(
        println_line(&heap, NativeMethod::PrintlnObject, &vec![this, StackValue::Reference(Some(99))]),
        Err(RuntimeError::InvalidReference(99))
    );
    let array = heap.new_int_array(2).expect("an int array class");
    let mut frame = frame_with(&[StackValue::Reference(Some(array)), StackValue::Int(0)], 4);
    assert_eq!(OpCode::Baload.execute(&mut frame, &mut heap).err(), Some(RuntimeError::WrongArrayType));
}

#[test]
fn the_machine_refuses_what_it_cannot_run() {
    let mut heap = Heap::new();
    let object = heap.find_class(&parse_class_identifier("java/lang/Object").expect("name")).expect("Object");
    assert!(matches!(Machine::new(&heap, object, 0), Err(MachineError::NoBytecode)));
    assert!(matches!(Machine::new(&heap, 99, 0), Err(MachineError::NoBytecode)));
}

#[test]
fn methods_are_looked_up_in_superclasses() {
    let mut heap = Heap::new();
    let println_int = MethodDescriptor {
        name: "println".to_string(),
        descriptor: (vec![ArgumentKind::Simple(SimpleArgumentKind::Int)], None),
    };
    assert_eq!(get_method(&heap, 2, &println_int), Some((2, 6)));
    let child = heap.add_class(RuntimeClass {
        class_identifier: parse_class_identifier("Child").expect("name"),
        methods: vec![],
        static_fields: vec![],
        instance_fields: vec![],
        super_class: Some(2),
        kind: ClassKind::Plain,
    });
    assert_eq!(get_method(&heap, child, &println_int), Some((2, 6)));
    let looping = heap.add_class(RuntimeClass {
        class_identifier: parse_class_identifier("Loop").expect("name"),
        methods: vec![],
        static_fields: vec![],
        instance_fields: vec![],
        super_class: Some(heap.classes.len()),
        kind: ClassKind::Plain,
    });
    assert_eq!(get_method(&heap, looping, &println_int), None);
    assert_eq!(get_method(&heap, 99, &println_int), None);
}

#[test]
fn values_name_their_kind() {
    assert_eq!(StackValue::Long(1).kind_name(), "long");
    assert_eq!(StackValue::ReturnAddress(0).kind_name(), "return_address");
    assert_eq!(VariableValueOrValue::Invalid.kind_name(), "invalid!");
    assert_eq!(VariableValueOrValue::Reference(None).kind_name(), "reference");
}
