use cmjava::class::builtin_classes::throwable::throwable_class;
use cmjava::class::{ArgumentKind, SimpleArgumentKind};
use cmjava::classloader::attribute_parser::AttributeError;
use cmjava::classloader::class_creator::ClassCreationError;
use cmjava::classloader::loader::{load_class, LoadError};
use cmjava::executor::execute_heap::get_method;
use cmjava::executor::machine::{Machine, Step};
use cmjava::executor::natives::println_line;
use cmjava::executor::op_code::MethodDescriptor;
use cmjava::heap::Heap;

/// A constant pool entry of a class file under construction.
enum Entry {
    Utf8(&'static str),
    Class(u16),
    Str(u16),
    NameAndType(u16, u16),
    Field(u16, u16),
    Method(u16, u16),
}

/// A class file with one static method `main([Ljava/lang/String;)V`. The constant pool
/// must hold the class (entry 2) of `Main` (entry 1), `java/lang/Object` (entries 3, 4),
/// `main` (5), its descriptor (6) and `Code` (7) first.
/// A static method: name and descriptor entries, code, exception handlers (start, end,
/// handler, catch type), maximal stack depth and local variable count.
struct MethodInfo {
    name: u16,
    descriptor: u16,
    code: Vec<u8>,
    handlers: Vec<(u16, u16, u16, u16)>,
    max_stack: u16,
    max_locals: u16,
    attributes: Vec<(u16, Vec<u8>)>,
}

fn class_file(extra: Vec<Entry>, code: &[u8], handlers: &[(u16, u16, u16, u16)], max_stack: u16, max_locals: u16) -> Vec<u8> {
    let main = MethodInfo {
        name: 5,
        descriptor: 6,
        code: code.to_vec(),
        handlers: handlers.to_vec(),
        max_stack,
        max_locals,
        attributes: vec![],
    };
    class_file_with(extra, vec![main])
}

/// A class file with the given static methods.
fn class_file_with(extra: Vec<Entry>, methods: Vec<MethodInfo>) -> Vec<u8> {
    let mut pool = vec![
        Entry::Utf8("Main"),
        Entry::Class(1),
        Entry::Utf8("java/lang/Object"),
        Entry::Class(3),
        Entry::Utf8("main"),
        Entry::Utf8("([Ljava/lang/String;)V"),
        Entry::Utf8("Code"),
    ];
    pool.extend(extra);
    let mut b: Vec<u8> = vec![0xca, 0xfe, 0xba, 0xbe, 0, 0, 0, 52];
    b.extend_from_slice(&(pool.len() as u16 + 1).to_be_bytes());
    for e in &pool {
        match e {
            Entry::Utf8(s) => {
                b.push(1);
                b.extend_from_slice(&(s.len() as u16).to_be_bytes());
                b.extend_from_slice(s.as_bytes());
            },
            Entry::Class(i) => {
                b.push(7);
                b.extend_from_slice(&i.to_be_bytes());
            },
            Entry::Str(i) => {
                b.push(8);
                b.extend_from_slice(&i.to_be_bytes());
            },
            Entry::NameAndType(n, t) | Entry::Field(n, t) | Entry::Method(n, t) => {
                b.push(match e {
                    Entry::NameAndType(..) => 12,
                    Entry::Field(..) => 9,
                    _ => 10,
                });
                b.extend_from_slice(&n.to_be_bytes());
                b.extend_from_slice(&t.to_be_bytes());
            },
        }
    }
    for v in [0x0021u16, 2, 4, 0, 0, methods.len() as u16] {
        b.extend_from_slice(&v.to_be_bytes());
    }
    for m in &methods {
        for v in [0x0009u16, m.name, m.descriptor, 1, 7] {
            b.extend_from_slice(&v.to_be_bytes());
        }
        let nested: usize = m.attributes.iter().map(|(_, a)| 6 + a.len()).sum();
        let length = 2 + 2 + 4 + m.code.len() + 2 + 8 * m.handlers.len() + 2 + nested;
        b.extend_from_slice(&(length as u32).to_be_bytes());
        b.extend_from_slice(&m.max_stack.to_be_bytes());
        b.extend_from_slice(&m.max_locals.to_be_bytes());
        b.extend_from_slice(&(m.code.len() as u32).to_be_bytes());
        b.extend_from_slice(&m.code);
        b.extend_from_slice(&(m.handlers.len() as u16).to_be_bytes());
        for (start, end, handler, catch) in &m.handlers {
            for v in [*start, *end, *handler, *catch] {
                b.extend_from_slice(&v.to_be_bytes());
            }
        }
        b.extend_from_slice(&(m.attributes.len() as u16).to_be_bytes());
        for (name, content) in &m.attributes {
            b.extend_from_slice(&name.to_be_bytes());
            b.extend_from_slice(&(content.len() as u32).to_be_bytes());
            b.extend_from_slice(content);
        }
    }
    b.extend_from_slice(&0u16.to_be_bytes());
    b
}

/// `System.out` as a field reference and `println(String)` as a method reference, at the
/// entries 8 to 18.
fn printing_entries() -> Vec<Entry> {
    vec![
        Entry::Utf8("java/lang/System"),
        Entry::Class(8),
        Entry::Utf8("out"),
        Entry::Utf8("Ljava/io/PrintStream;"),
        Entry::NameAndType(10, 11),
        Entry::Field(9, 12),
        Entry::Utf8("java/io/PrintStream"),
        Entry::Class(14),
        Entry::Utf8("println"),
        Entry::Utf8("(Ljava/lang/String;)V"),
        Entry::NameAndType(16, 17),
        Entry::Method(15, 18),
    ]
}

fn main_descriptor() -> MethodDescriptor {
    MethodDescriptor {
        name: "main".to_string(),
        descriptor: (
            vec![ArgumentKind::Array {
                dimensions: 1,
                kind: SimpleArgumentKind::Class("java/lang/String".to_string()),
            }],
            None,
        ),
    }
}

/// Loads the class into `heap`, runs its `main` and returns the lines it printed.
fn run(content: &[u8], heap: &mut Heap) -> Vec<String> {
    let class = match load_class(content, heap) {
        Ok(c) => c,
        Err(e) => panic!("the class does not load: {:?}", e),
    };
    let (class, method) = get_method(heap, class, &main_descriptor()).expect("main exists");
    let mut machine = Machine::new(heap, class, method).ok().expect("main has code");
    let mut lines: Vec<String> = Vec::new();
    for _ in 0..200 {
        match machine.step(heap) {
            Step::Continue => {},
            Step::Finished => return lines,
            Step::Native { method, arguments } => {
                lines.push(println_line(heap, method, &arguments).expect("a line"));
                assert!(machine.resume(None).is_ok());
            },
            Step::UncaughtException(e) => panic!("uncaught exception {}", e),
            _ => panic!("unexpected step"),
        }
    }
    panic!("the program does not end");
}

#[test]
fn prints_a_string_constant() {
    let mut pool = printing_entries();
    pool.push(Entry::Utf8("Hello world!"));
    pool.push(Entry::Str(20));
    // getstatic out; ldc "Hello world!"; invokevirtual println(String); return
    let code = [0xb2, 0, 13, 0x12, 21, 0xb6, 0, 19, 0xb1];
    let mut heap = Heap::new();
    assert_eq!(run(&class_file(pool, &code, &[], 2, 1), &mut heap), vec!["Hello world!".to_string()]);
}

#[test]
fn a_thrown_object_is_caught_by_its_handler() {
    let mut pool = printing_entries();
    pool.extend(vec![Entry::Utf8("Oops"), Entry::Str(20), Entry::Utf8("caught"), Entry::Str(22)]);
    let code = [
        0x12, 21, // ldc "Oops"
        0xbf, // athrow
        0x4c, // astore_1 (the handler)
        0xb2, 0, 13, // getstatic out
        0x12, 23, // ldc "caught"
        0xb6, 0, 19, // invokevirtual println(String)
        0xb1, // return
    ];
    let mut heap = Heap::new();
    let lines = run(&class_file(pool, &code, &[(0, 3, 3, 0)], 2, 2), &mut heap);
    assert_eq!(lines, vec!["caught".to_string()]);
}

#[test]
fn an_exception_leaves_the_callee_for_the_callers_handler() {
    let mut pool = printing_entries();
    pool.extend(vec![
        Entry::Utf8("Oops"),
        Entry::Str(20),
        Entry::Utf8("caught"),
        Entry::Str(22),
        Entry::Utf8("fail"),
        Entry::Utf8("()V"),
        Entry::NameAndType(24, 25),
        Entry::Method(2, 26),
        Entry::Utf8("not reached"),
        Entry::Str(28),
    ]);
    let main = MethodInfo {
        name: 5,
        descriptor: 6,
        code: vec![
            0xb8, 0, 27, // invokestatic fail()
            0xb2, 0, 13, // getstatic out
            0x12, 29, // ldc "not reached"
            0xb6, 0, 19, // invokevirtual println(String)
            0xb1, // return
            0x4c, // astore_1 (the handler)
            0xb2, 0, 13, // getstatic out
            0x12, 23, // ldc "caught"
            0xb6, 0, 19, // invokevirtual println(String)
            0xb1, // return
        ],
        handlers: vec![(0, 3, 12, 0)],
        max_stack: 2,
        max_locals: 2,
        attributes: vec![],
    };
    let fail = MethodInfo {
        name: 24,
        descriptor: 25,
        code: vec![0x12, 21, 0xbf], // ldc "Oops"; athrow
        handlers: vec![],
        max_stack: 1,
        max_locals: 0,
        attributes: vec![],
    };
    let mut heap = Heap::new();
    let lines = run(&class_file_with(pool, vec![main, fail]), &mut heap);
    assert_eq!(lines, vec!["caught".to_string()]);
}

#[test]
fn every_invocation_is_searched_with_the_first_methods_handlers() {
    let mut pool = printing_entries();
    pool.extend(vec![
        Entry::Utf8("Oops"),
        Entry::Str(20),
        Entry::Utf8("caught"),
        Entry::Str(22),
        Entry::Utf8("fail"),
        Entry::Utf8("()V"),
        Entry::NameAndType(24, 25),
        Entry::Method(2, 26),
        Entry::Utf8("not reached"),
        Entry::Str(28),
        Entry::Utf8("inner"),
        Entry::Str(30),
    ]);
    let main = MethodInfo {
        name: 5,
        descriptor: 6,
        code: vec![
            0xb8, 0, 27, // invokestatic fail()
            0xb2, 0, 13, // getstatic out
            0x12, 29, // ldc "not reached"
            0xb6, 0, 19, // invokevirtual println(String)
            0xb1, // return
            0x4c, // astore_1 (the handler)
            0xb2, 0, 13, // getstatic out
            0x12, 23, // ldc "caught"
            0xb6, 0, 19, // invokevirtual println(String)
            0xb1, // return
        ],
        handlers: vec![(0, 3, 12, 0)],
        max_stack: 2,
        max_locals: 2,
        attributes: vec![],
    };
    // The callee's own handler covers its `athrow`, but only the handlers of `main` are
    // searched: `main`'s does not cover the callee's position, so `main` catches it.
    let fail = MethodInfo {
        name: 24,
        descriptor: 25,
        code: vec![
            0x12, 21, // ldc "Oops"
            0xbf, // athrow
            0x4b, // astore_0 (the callee's handler)
            0xb2, 0, 13, // getstatic out
            0x12, 31, // ldc "inner"
            0xb6, 0, 19, // invokevirtual println(String)
            0xb1, // return
        ],
        handlers: vec![(0, 3, 3, 0)],
        max_stack: 2,
        max_locals: 1,
        attributes: vec![],
    };
    let mut heap = Heap::new();
    let lines = run(&class_file_with(pool, vec![main, fail]), &mut heap);
    assert_eq!(lines, vec!["caught".to_string()]);
}

#[test]
fn an_object_thrown_without_handler_stops_the_machine() {
    let mut pool = printing_entries();
    pool.extend(vec![Entry::Utf8("Oops"), Entry::Str(20)]);
    let code = [0x12, 21, 0xbf];
    let mut heap = Heap::new();
    let class = load_class(&class_file(pool, &code, &[], 1, 1), &mut heap).ok().expect("loads");
    let (class, method) = get_method(&heap, class, &main_descriptor()).expect("main exists");
    let mut machine = Machine::new(&heap, class, method).ok().expect("main has code");
    let mut thrown = None;
    for _ in 0..20 {
        match machine.step(&mut heap) {
            Step::Continue => {},
            Step::UncaughtException(e) => {
                thrown = Some(e);
                break;
            },
            _ => panic!("unexpected step"),
        }
    }
    let e = thrown.expect("the exception is not caught");
    let class = heap.objects[e].class;
    assert_eq!(heap.classes[class].class_identifier.display_text(), "java/lang/String");
    assert!(machine.resume(None).is_err());
}

#[test]
fn the_throwable_class_keeps_its_message() {
    let mut heap = Heap::new();
    let throwable = heap.add_class(throwable_class());
    assert_eq!(heap.classes[throwable].methods.len(), 2);
    assert_eq!(heap.find_class(&cmjava::class::parse_class_identifier("java/lang/Throwable").expect("name")), Some(throwable));
}

#[test]
fn a_class_that_creates_objects_is_refused() {
    let pool = vec![Entry::Utf8("java/lang/Object"), Entry::Class(8)];
    // new java/lang/Object; return
    let code = [0xbb, 0, 9, 0xb1];
    let mut heap = Heap::new();
    assert!(matches!(
        load_class(&class_file(pool, &code, &[], 1, 1), &mut heap),
        Err(LoadError::Creation(ClassCreationError::InvalidCode))
    ));
}

#[test]
fn a_class_with_an_unknown_code_attribute_is_refused() {
    let pool = vec![Entry::Utf8("StackMapTable")];
    let main = MethodInfo {
        name: 5,
        descriptor: 6,
        code: vec![0xb1],
        handlers: vec![],
        max_stack: 0,
        max_locals: 1,
        attributes: vec![(8, vec![0, 0])],
    };
    let mut heap = Heap::new();
    match load_class(&class_file_with(pool, vec![main]), &mut heap) {
        Err(LoadError::Attribute(AttributeError::UnknownAttribute(name))) => assert_eq!(name, "StackMapTable"),
        Err(e) => panic!("refused for another reason: {:?}", e),
        Ok(_) => panic!("the class loads"),
    }
}
