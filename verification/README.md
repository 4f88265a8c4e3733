# cmjava

A small Java virtual machine written in Verus. It reads class files, decodes their
constant pool, attributes and bytecode, builds classes from them, and runs a class's
`main` method. Every part of the library in `src/` carries a contract that Verus proves.

## Layout

- `src/classloader/` – the class file format: a parser on bytes (`file_parser`), the
  attribute decoder, the constant pool decoder, the instruction decoder with its jump
  offsets (`opcode_parser`), the method descriptor parser (with `descriptor_text`, which
  writes descriptors out and proves that decoding gives the kinds back), and the class
  builder;
  `loader::load_class` goes from bytes to a class on the heap.
- `src/class/` – identifiers, fields, methods and the classes the machine provides itself
  (`Object`, `String`, `PrintStream`, the input streams, `System`, `Throwable`, arrays).
- `src/heap.rs` – the classes and objects of the machine; objects are referred to by index.
- `src/executor/` – the operand stack, local variables and program counter, the
  instructions (`execute`, `execute_heap`), the lines the print methods write, and the
  machine that steps through methods, calls, returns and exception handlers.
- `app/` – the command line program: it reads the class files, runs the machine, and
  carries out what the machine hands out (printing, reading standard input, floating
  point arithmetic).
