use cmjava::class::{parse_class_identifier, ArgumentKind, ArrayName, ClassName, SimpleArgumentKind};
use cmjava::classloader::attribute_parser::{parse_attribute, AttributeError, AttributeInfo};
use cmjava::classloader::constant_pool::CpInfo;
use cmjava::classloader::cp_decoder::remove_cp_offset;
use cmjava::classloader::raw::RawAttributeInfo;
use cmjava::classloader::loader::load_class;
use cmjava::classloader::opcode_parser::{
    byte_offset_to_opcode_offset, parse_branch_offsets, parse_opcodes,
    signed_offset_to_usize_and_direction,
};
use cmjava::classloader::signature_parser::{parse_method_arguments, try_parse_method_arguments};
use cmjava::class::members::NativeMethod;
use cmjava::executor::execute_heap::get_method;
use cmjava::executor::frame_stack::{FrameStack, StackValue};
use cmjava::executor::local_variables::{LocalVariables, VariableValueOrValue};
use cmjava::executor::machine::{Machine, Step};
use cmjava::executor::op_code::{ArrayType, MethodDescriptor, OffsetDirection, OpCode};
use cmjava::executor::program_counter::{ProgramCounter, ProgramCounterError};
use cmjava::heap::Heap;

fn utf8(out: &mut Vec<u8>, s: &str) {
    out.push(1);
    out.extend_from_slice(&(s.len() as u16).to_be_bytes());
    out.extend_from_slice(s.as_bytes());
}

fn u16_entry(out: &mut Vec<u8>, tag: u8, a: u16) {
    out.push(tag);
    out.extend_from_slice(&a.to_be_bytes());
}

fn pair_entry(out: &mut Vec<u8>, tag: u8, a: u16, b: u16) {
    out.push(tag);
    out.extend_from_slice(&a.to_be_bytes());
    out.extend_from_slice(&b.to_be_bytes());
}

/// A class `Main` whose static `main` prints 2 + 3 with `System.out.println(int)`.
fn main_class() -> Vec<u8> {
    let mut b: Vec<u8> = vec![0xca, 0xfe, 0xba, 0xbe, 0, 0, 0, 52];
    b.extend_from_slice(&20u16.to_be_bytes());
    utf8(&mut b, "Main");
    u16_entry(&mut b, 7, 1);
    utf8(&mut b, "java/lang/Object");
    u16_entry(&mut b, 7, 3);
    utf8(&mut b, "main");
    utf8(&mut b, "([Ljava/lang/String;)V");
    utf8(&mut b, "Code");
    utf8(&mut b, "java/lang/System");
    u16_entry(&mut b, 7, 8);
    utf8(&mut b, "out");
    utf8(&mut b, "Ljava/io/PrintStream;");
    pair_entry(&mut b, 12, 10, 11);
    pair_entry(&mut b, 9, 9, 12);
    utf8(&mut b, "java/io/PrintStream");
    u16_entry(&mut b, 7, 14);
    utf8(&mut b, "println");
    utf8(&mut b, "(I)V");
    pair_entry(&mut b, 12, 16, 17);
    pair_entry(&mut b, 10, 15, 18);
    b.extend_from_slice(&0x0021u16.to_be_bytes());
    b.extend_from_slice(&2u16.to_be_bytes());
    b.extend_from_slice(&4u16.to_be_bytes());
    b.extend_from_slice(&0u16.to_be_bytes());
    b.extend_from_slice(&0u16.to_be_bytes());
    b.extend_from_slice(&1u16.to_be_bytes());
    b.extend_from_slice(&0x0009u16.to_be_bytes());
    b.extend_from_slice(&5u16.to_be_bytes());
    b.extend_from_slice(&6u16.to_be_bytes());
    b.extend_from_slice(&1u16.to_be_bytes());
    let code: Vec<u8> = vec![0xb2, 0, 13, 0x05, 0x06, 0x60, 0xb6, 0, 19, 0xb1];
    b.extend_from_slice(&7u16.to_be_bytes());
    let length = 2 + 2 + 4 + code.len() + 2 + 2;
    b.extend_from_slice(&(length as u32).to_be_bytes());
    b.extend_from_slice(&3u16.to_be_bytes());
    b.extend_from_slice(&1u16.to_be_bytes());
    b.extend_from_slice(&(code.len() as u32).to_be_bytes());
    b.extend_from_slice(&code);
    b.extend_from_slice(&0u16.to_be_bytes());
    b.extend_from_slice(&0u16.to_be_bytes());
    b.extend_from_slice(&0u16.to_be_bytes());
    b
}

fn main_descriptor() -> MethodDescriptor {
    MethodDescriptor {
        name: "main".to_string(),
        descriptor: (
            vec![ArgumentKind::Array {
                dimensions: 1,
                kind: SimpleArgumentKind::Class("java/lang/String".to_string()),
            }],
            None,
        ),
    }
}

#[test]
fn runs_a_loaded_class_until_it_prints() {
    let mut heap = Heap::new();
    let class = match load_class(&main_class(), &mut heap) {
        Ok(c) => c,
        Err(_) => panic!("the class does not load"),
    };
    let (class, method) = get_method(&heap, class, &main_descriptor()).expect("main exists");
    let mut machine = match Machine::new(&heap, class, method) {
        Ok(m) => m,
        Err(_) => panic!("main has no code"),
    };
    let mut printed: Vec<i32> = Vec::new();
    let mut steps = 0;
    loop {
        steps += 1;
        assert!(steps < 100);
        match machine.step(&mut heap) {
            Step::Continue => {},
            Step::Finished => break,
            Step::Native { method, arguments } => {
                assert!(method == NativeMethod::PrintlnInt);
                assert_eq!(arguments.len(), 2);
                match arguments[1] {
                    StackValue::Int(v) => printed.push(v),
                    _ => panic!("println(int) got no int"),
                }
                assert!(machine.resume(None).is_ok());
            },
            _ => panic!("unexpected step"),
        }
    }
    assert_eq!(printed, vec![5]);
}

#[test]
fn rejects_bytes_that_are_no_class_file() {
    let mut heap = Heap::new();
    assert!(load_class(&[0, 1, 2, 3], &mut heap).is_err());
    let mut truncated = main_class();
    truncated.truncate(40);
    assert!(load_class(&truncated, &mut heap).is_err());
}

#[test]
fn parses_class_names() {
    let plain = parse_class_identifier("java/lang/String").expect("plain name");
    assert_eq!(plain.package, vec!["java".to_string(), "lang".to_string()]);
    assert!(matches!(&plain.class_name, ClassName::Plain(n) if n == "String"));
    let ints = parse_class_identifier("[I").expect("int array");
    assert!(ints.package.is_empty());
    assert!(matches!(&ints.class_name, ClassName::Array { dimensions: 1, name: ArrayName::Int }));
    let strings = parse_class_identifier("[[Ljava/lang/String;").expect("array of arrays");
    assert_eq!(strings.package, vec!["java".to_string(), "lang".to_string()]);
    assert!(matches!(
        &strings.class_name,
        ClassName::Array { dimensions: 2, name: ArrayName::Class(n) } if n == "String"
    ));
    assert!(parse_class_identifier("[Q").is_none());
}

#[test]
fn parses_method_descriptors() {
    let (params, ret) = parse_method_arguments("(IJ[[D)[Ljava/lang/String;");
    assert_eq!(params.len(), 3);
    assert!(matches!(params[0], ArgumentKind::Simple(SimpleArgumentKind::Int)));
    assert!(matches!(params[1], ArgumentKind::Simple(SimpleArgumentKind::Long)));
    assert!(matches!(
        params[2],
        ArgumentKind::Array { dimensions: 2, kind: SimpleArgumentKind::Double }
    ));
    assert!(matches!(
        &ret,
        Some(ArgumentKind::Array { dimensions: 1, kind: SimpleArgumentKind::Class(c) }) if c == "java/lang/String"
    ));
    let (none, void) = parse_method_arguments("()V");
    assert!(none.is_empty());
    assert!(void.is_none());
    assert!(try_parse_method_arguments("(X)V").is_none());
}

#[test]
fn keeps_reading_class_names_after_a_class_kind() {
    let (params, ret) = parse_method_arguments("(I[Ljava/lang/String;J)D");
    assert_eq!(params.len(), 2);
    assert!(matches!(params[0], ArgumentKind::Simple(SimpleArgumentKind::Int)));
    assert!(matches!(
        &params[1],
        ArgumentKind::Array { dimensions: 1, kind: SimpleArgumentKind::Class(c) } if c == "java/lang/String"
    ));
    assert!(ret.is_none());
    let (params, ret) = parse_method_arguments("(Ljava/lang/String;I)V");
    assert_eq!(params.len(), 1);
    assert!(matches!(
        &params[0],
        ArgumentKind::Simple(SimpleArgumentKind::Class(c)) if c == "java/lang/String"
    ));
    assert!(ret.is_none());
    let (params, ret) = parse_method_arguments("(Ljava/lang/Object;Ljava/lang/String;)V");
    assert_eq!(params.len(), 2);
    assert!(matches!(
        &params[0],
        ArgumentKind::Simple(SimpleArgumentKind::Class(c)) if c == "java/lang/Object"
    ));
    assert!(matches!(
        &params[1],
        ArgumentKind::Simple(SimpleArgumentKind::Class(c)) if c == "Ljava/lang/String"
    ));
    assert!(ret.is_none());
}

#[test]
fn removes_the_constant_pool_offset() {
    assert_eq!(remove_cp_offset(1), 0);
    assert_eq!(remove_cp_offset(5), 4);
}

#[test]
fn splits_signed_offsets() {
    assert!(matches!(signed_offset_to_usize_and_direction(7), (7, OffsetDirection::Forward)));
    assert!(matches!(signed_offset_to_usize_and_direction(-3), (3, OffsetDirection::Backward)));
    assert!(matches!(signed_offset_to_usize_and_direction(0), (0, OffsetDirection::Backward)));
}

#[test]
fn decodes_array_types() {
    assert!(ArrayType::from_int(4) == ArrayType::Boolean);
    assert!(ArrayType::from_int(10) == ArrayType::Int);
    assert!(ArrayType::from_int(11) == ArrayType::Long);
}

#[test]
fn converts_byte_offsets_to_instruction_offsets() {
    let sizes: Vec<u8> = vec![1, 3, 2, 1];
    assert_eq!(byte_offset_to_opcode_offset(&5, &OffsetDirection::Forward, 1, &sizes), Some(2));
    assert_eq!(byte_offset_to_opcode_offset(&4, &OffsetDirection::Backward, 2, &sizes), Some(2));
    assert_eq!(byte_offset_to_opcode_offset(&2, &OffsetDirection::Forward, 1, &sizes), None);
    assert_eq!(byte_offset_to_opcode_offset(&6, &OffsetDirection::Forward, 1, &sizes), Some(3));
}

#[test]
fn decodes_code_with_a_backward_jump() {
    // iconst_0, istore_1, iinc 1 1, goto -3, return
    let code: Vec<u8> = vec![0x03, 0x3c, 0x84, 1, 1, 0xa7, 0xff, 0xfd, 0xb1];
    let (ops, sizes) = match parse_opcodes(&code, &Vec::new()) {
        Ok(p) => p,
        Err(_) => panic!("the code decodes"),
    };
    assert_eq!(sizes, vec![1, 1, 3, 3, 1]);
    assert!(matches!(ops[0], OpCode::Iconst(0)));
    assert!(matches!(ops[1], OpCode::Istore(1)));
    assert!(matches!(ops[2], OpCode::Iinc { index: 1, constant: 1 }));
    assert!(matches!(ops[3], OpCode::Goto(1, OffsetDirection::Backward)));
    assert!(matches!(ops[4], OpCode::Return));
}

#[test]
fn rejects_jumps_into_an_instruction() {
    // goto +1 lands inside itself
    let code: Vec<u8> = vec![0xa7, 0x00, 0x01, 0xb1];
    assert!(parse_opcodes(&code, &Vec::new()).is_err());
    let mut ops = vec![OpCode::Goto(1, OffsetDirection::Forward), OpCode::Return];
    assert!(parse_branch_offsets(&mut ops, &vec![3, 1]).is_err());
    let mut ops = vec![OpCode::Goto(3, OffsetDirection::Forward), OpCode::Return];
    assert!(parse_branch_offsets(&mut ops, &vec![3, 1]).is_ok());
    assert!(matches!(ops[0], OpCode::Goto(1, OffsetDirection::Forward)));
}

#[test]
fn local_variables_give_back_what_was_set() {
    let mut locals = LocalVariables::new(4);
    locals.set(0, VariableValueOrValue::Long(-2));
    locals.set(2, VariableValueOrValue::Double(0x4009_21fb_5444_2d18));
    assert!(locals.get(0) == VariableValueOrValue::Long(-2));
    assert!(locals.get(2) == VariableValueOrValue::Double(0x4009_21fb_5444_2d18));
    assert!(!locals.can_get(1));
    locals.set(1, VariableValueOrValue::Int(9));
    assert!(locals.get(1) == VariableValueOrValue::Int(9));
    assert!(locals.get(0) == VariableValueOrValue::Invalid);
}

#[test]
fn frame_stack_respects_its_depth() {
    let mut stack = FrameStack::new(3);
    assert!(stack.push(StackValue::Int(1)).is_ok());
    assert!(stack.push(StackValue::Long(2)).is_ok());
    assert!(stack.push(StackValue::Int(3)).is_err());
    assert_eq!(stack.depth(), 3);
    assert!(stack.pop() == Some(StackValue::Long(2)));
    assert!(stack.pop() == Some(StackValue::Int(1)));
    assert!(stack.pop().is_none());
}

#[test]
fn program_counter_stays_within_the_code() {
    let mut pc = ProgramCounter::new(3);
    assert!(pc.next(2).is_ok());
    assert_eq!(pc.current(), 2);
    assert!(pc.next(1).is_err());
    assert_eq!(pc.current(), 2);
    assert!(pc.previous(3).is_err());
    assert!(pc.previous(2).is_ok());
    assert_eq!(pc.current(), 0);
    assert!(pc.set(3).is_err());
    assert!(pc.set(1).is_ok());
    assert_eq!(pc.current(), 1);
}

#[test]
fn program_counter_errors_name_the_request() {
    let mut pc = ProgramCounter::new(3);
    assert!(pc.next(2).is_ok());
    assert_eq!(
        pc.next(5),
        Err(ProgramCounterError::OutOfBoundsError { actual_len: 3, requested_pos: 7 })
    );
    assert_eq!(pc.current(), 2);
    assert_eq!(
        pc.previous(4),
        Err(ProgramCounterError::BeforeStartError { position: 2, offset: 4 })
    );
    assert_eq!(
        pc.set(9),
        Err(ProgramCounterError::OutOfBoundsError { actual_len: 3, requested_pos: 9 })
    );
    assert_eq!(pc.current(), 2);
}

#[test]
fn loading_a_class_again_replaces_it() {
    let mut heap = Heap::new();
    let first = load_class(&main_class(), &mut heap).ok().expect("the class loads");
    let count = heap.classes.len();
    assert_eq!(heap.find_class(&parse_class_identifier("Main").expect("name")), Some(first));
    let second = load_class(&main_class(), &mut heap).ok().expect("the class loads again");
    assert_eq!(first, second);
    assert_eq!(heap.classes.len(), count);
}

#[test]
fn decodes_the_classes_an_exceptions_attribute_lists() {
    let pool = vec![
        CpInfo::UTF8INFO("Exceptions".to_string()),
        CpInfo::UTF8INFO("java/lang/Throwable".to_string()),
        CpInfo::ClassInfo { name_index: 2 },
    ];
    let raw = RawAttributeInfo { attribute_name_index: 1, info: vec![0, 1, 0, 3] };
    match parse_attribute(&pool, &raw) {
        Ok(AttributeInfo::Exceptions(classes)) => {
            assert_eq!(classes.len(), 1);
            assert_eq!(classes[0].display_text(), "java/lang/Throwable");
        },
        _ => panic!("the attribute does not decode"),
    }
    let raw = RawAttributeInfo { attribute_name_index: 1, info: vec![0, 1, 0, 2] };
    assert!(matches!(parse_attribute(&pool, &raw), Err(AttributeError::Malformed)));
    let raw = RawAttributeInfo { attribute_name_index: 1, info: vec![0, 2, 0, 3] };
    assert!(matches!(parse_attribute(&pool, &raw), Err(AttributeError::Malformed)));
    let raw = RawAttributeInfo { attribute_name_index: 2, info: vec![] };
    match parse_attribute(&pool, &raw) {
        Err(AttributeError::UnknownAttribute(name)) => assert_eq!(name, "java/lang/Throwable"),
        _ => panic!("an unknown attribute decodes"),
    }
}
