//! Decoding of method bytecode into instructions.
use vstd::prelude::*;

use crate::class::{
    parse_class_identifier, spec_class_identifier, ArrayNameModel, ClassIdentifier,
    ClassIdentifierModel, ClassName, ClassNameModel,
};
use crate::classloader::cp_decoder::{runtime_cp_view, RuntimeCPEntry, RuntimeCPEntryModel};
use crate::classloader::file_parser::{spec_u16, spec_u32};
use crate::classloader::signature_parser::{
    descriptor_accepted, descriptor_meaning, try_parse_method_arguments,
};
use crate::executor::op_code::{
    array_type_of, ArrayType, Dup, FloatCmp, Ldc, MethodDescriptor, OffsetDirection, OpCode,
    SymbolicMethod,
};

verus! {

/// Why bytecode could not be decoded.
pub enum OpcodeError {
    /// An instruction that this machine does not support (such as `tableswitch` or `new`).
    Unsupported(u8),
    /// `wide` in front of an instruction that it cannot modify.
    UnsupportedWide(u8),
    /// A byte that is no instruction.
    InvalidOpcode(u8),
    /// The code ends inside an instruction.
    Truncated,
    /// A constant pool operand does not refer to a fitting entry.
    UnresolvedConstant,
    /// A jump does not land on the start of an instruction.
    InvalidBranchTarget,
}

// ---------------------------------------------------------------------------------------------
// Instruction lengths

/// Length of the instruction that `wide` modifies, `wide` included.
pub open spec fn wide_len(c: u8) -> Option<int> {
    if c == 132 {
        Some(6)
    } else if (21 <= c <= 25) || (54 <= c <= 58) || c == 169 {
        Some(4)
    } else {
        None
    }
}

/// Whether the opcode byte `b` is an instruction that this machine does not support.
pub open spec fn is_unsupported(b: u8) -> bool {
    b == 170 || b == 171 || b == 180 || b == 181 || b == 185 || b == 186 || b == 187 || b == 192
        || b == 193
}

/// Length in bytes of the instruction at `p`, judged by its opcode byte alone.
pub open spec fn opcode_len(code: Seq<u8>, p: int) -> Option<int> {
    let b = code[p];
    if b <= 15 {
        Some(1)
    } else if b == 16 {
        Some(2)
    } else if b == 17 {
        Some(3)
    } else if b == 18 {
        Some(2)
    } else if b <= 20 {
        Some(3)
    } else if b <= 25 {
        Some(2)
    } else if b <= 53 {
        Some(1)
    } else if b <= 58 {
        Some(2)
    } else if b <= 131 {
        Some(1)
    } else if b == 132 {
        Some(3)
    } else if b <= 152 {
        Some(1)
    } else if b <= 168 {
        Some(3)
    } else if b == 169 {
        Some(2)
    } else if b <= 171 {
        None
    } else if b <= 177 {
        Some(1)
    } else if b <= 179 {
        Some(3)
    } else if b <= 181 {
        None
    } else if b <= 184 {
        Some(3)
    } else if b <= 187 {
        None
    } else if b == 188 {
        Some(2)
    } else if b == 189 {
        Some(3)
    } else if b <= 191 {
        Some(1)
    } else if b <= 193 {
        None
    } else if b <= 195 {
        Some(1)
    } else if b == 196 {
        if p + 1 < code.len() {
            wide_len(code[p + 1])
        } else {
            None
        }
    } else if b == 197 {
        Some(4)
    } else if b <= 199 {
        Some(3)
    } else if b <= 201 {
        Some(5)
    } else {
        None
    }
}

/// The lengths of the instructions as the class file format gives them: one byte for the
/// instructions without operands; two for `bipush`, `ldc`, the local variable instructions
/// with an index, `ret` and `newarray`; three for `sipush`, `ldc_w`, `ldc2_w`, `iinc`, the
/// two-byte jumps, the field and method instructions with a constant pool index and
/// `anewarray`; four for `multianewarray`; five for `goto_w` and `jsr_w`; and with `wide`,
/// six for `iinc` and four for the others.
pub proof fn lemma_instruction_lengths(code: Seq<u8>, p: int)
    requires
        0 <= p < code.len(),
    ensures
        code[p] <= 15 || 26 <= code[p] <= 53 || 59 <= code[p] <= 131 || 133 <= code[p] <= 152 || 172
            <= code[p] <= 177 || 190 <= code[p] <= 191 || 194 <= code[p] <= 195 ==> opcode_len(code, p)
            == Some(1int),
        code[p] == 16 || code[p] == 18 || 21 <= code[p] <= 25 || 54 <= code[p] <= 58 || code[p] == 169
            || code[p] == 188 ==> opcode_len(code, p) == Some(2int),
        code[p] == 17 || code[p] == 19 || code[p] == 20 || code[p] == 132 || 153 <= code[p] <= 168 || 178
            <= code[p] <= 179 || 182 <= code[p] <= 184 || code[p] == 189 || code[p] == 198 || code[p] == 199
            ==> opcode_len(code, p) == Some(3int),
        code[p] == 197 ==> opcode_len(code, p) == Some(4int),
        code[p] == 200 || code[p] == 201 ==> opcode_len(code, p) == Some(5int),
        code[p] == 196 && p + 1 < code.len() && code[p + 1] == 132 ==> opcode_len(code, p) == Some(6int),
        code[p] == 196 && p + 1 < code.len() && (21 <= code[p + 1] <= 25 || 54 <= code[p + 1] <= 58
            || code[p + 1] == 169) ==> opcode_len(code, p) == Some(4int),
{
}

/// Length in bytes of the instruction at `p`; `None` when there is none or it does not fit.
pub open spec fn instr_len(code: Seq<u8>, p: int) -> Option<int> {
    if 0 <= p < code.len() {
        match opcode_len(code, p) {
            Some(l) => if p + l <= code.len() {
                Some(l)
            } else {
                None
            },
            None => None,
        }
    } else {
        None
    }
}

/// Lengths of the instructions from `p` to the end of the code.
pub open spec fn layout_from(code: Seq<u8>, p: int) -> Option<Seq<u8>>
    decreases code.len() - p,
{
    if p >= code.len() {
        Some(Seq::empty())
    } else {
        match instr_len(code, p) {
            Some(l) => if l > 0 {
                match layout_from(code, p + l) {
                    Some(rest) => Some(seq![l as u8] + rest),
                    None => None,
                }
            } else {
                None
            },
            None => None,
        }
    }
}

/// The byte position of instruction `i`, given the lengths of the instructions.
pub open spec fn byte_position(sizes: Seq<u8>, i: int) -> int
    decreases i,
{
    if i <= 0 {
        0
    } else {
        byte_position(sizes, i - 1) + sizes[i - 1]
    }
}

// ---------------------------------------------------------------------------------------------
// Instructions without constant pool operands or jumps

/// Bit pattern of the float constant `n` (0, 1 or 2).
pub open spec fn float_constant_bits(n: int) -> u32 {
    if n == 0 {
        0
    } else if n == 1 {
        0x3f80_0000
    } else {
        0x4000_0000
    }
}

/// Bit pattern of the double constant `n` (0 or 1).
pub open spec fn double_constant_bits(n: int) -> u64 {
    if n == 0 {
        0
    } else {
        0x3ff0_0000_0000_0000
    }
}

/// The instruction that `wide` at `p` forms with the instruction it modifies.
pub open spec fn wide_op(code: Seq<u8>, p: int) -> Option<OpCode> {
    let w = code[p + 1];
    let idx = spec_u16(code, p + 2) as usize;
    if w == 21 {
        Some(OpCode::Iload(idx))
    } else if w == 22 {
        Some(OpCode::Lload(idx))
    } else if w == 23 {
        Some(OpCode::Fload(idx))
    } else if w == 24 {
        Some(OpCode::Dload(idx))
    } else if w == 25 {
        Some(OpCode::Aload(idx))
    } else if w == 54 {
        Some(OpCode::Istore(idx))
    } else if w == 55 {
        Some(OpCode::Lstore(idx))
    } else if w == 56 {
        Some(OpCode::Fstore(idx))
    } else if w == 57 {
        Some(OpCode::Dstore(idx))
    } else if w == 58 {
        Some(OpCode::Astore(idx))
    } else if w == 132 {
        Some(OpCode::Iinc { index: idx, constant: spec_u16(code, p + 4) as i16 as i32 })
    } else if w == 169 {
        Some(OpCode::Ret(idx))
    } else {
        None
    }
}

/// The instruction without operands that opcode `b` stands for.
pub open spec fn simple_op(b: u8) -> Option<OpCode> {
    if b == 0 {
        Some(OpCode::Nop)
    } else if b == 1 {
        Some(OpCode::AconstNull)
    } else if 2 <= b <= 8 {
        Some(OpCode::Iconst((b - 3) as i32))
    } else if 9 <= b <= 10 {
        Some(OpCode::Lconst((b - 9) as i64))
    } else if 11 <= b <= 13 {
        Some(OpCode::Fconst(float_constant_bits(b - 11)))
    } else if 14 <= b <= 15 {
        Some(OpCode::Dconst(double_constant_bits(b - 14)))
    } else if 26 <= b <= 29 {
        Some(OpCode::Iload((b - 26) as usize))
    } else if 30 <= b <= 33 {
        Some(OpCode::Lload((b - 30) as usize))
    } else if 34 <= b <= 37 {
        Some(OpCode::Fload((b - 34) as usize))
    } else if 38 <= b <= 41 {
        Some(OpCode::Dload((b - 38) as usize))
    } else if 42 <= b <= 45 {
        Some(OpCode::Aload((b - 42) as usize))
    } else if b == 46 {
        Some(OpCode::Iaload)
    } else if b == 47 {
        Some(OpCode::Laload)
    } else if b == 48 {
        Some(OpCode::Faload)
    } else if b == 49 {
        Some(OpCode::Daload)
    } else if b == 50 {
        Some(OpCode::Aaload)
    } else if b == 51 {
        Some(OpCode::Baload)
    } else if b == 52 {
        Some(OpCode::Caload)
    } else if b == 53 {
        Some(OpCode::Saload)
    } else if 59 <= b <= 62 {
        Some(OpCode::Istore((b - 59) as usize))
    } else if 63 <= b <= 66 {
        Some(OpCode::Lstore((b - 63) as usize))
    } else if 67 <= b <= 70 {
        Some(OpCode::Fstore((b - 67) as usize))
    } else if 71 <= b <= 74 {
        Some(OpCode::Dstore((b - 71) as usize))
    } else if 75 <= b <= 78 {
        Some(OpCode::Astore((b - 75) as usize))
    } else if b == 79 {
        Some(OpCode::Iastore)
    } else if b == 80 {
        Some(OpCode::Lastore)
    } else if b == 81 {
        Some(OpCode::Fastore)
    } else if b == 82 {
        Some(OpCode::Dastore)
    } else if b == 83 {
        Some(OpCode::Aastore)
    } else if b == 84 {
        Some(OpCode::Bastore)
    } else if b == 85 {
        Some(OpCode::Castore)
    } else if b == 86 {
        Some(OpCode::Sastore)
    } else if b == 87 {
        Some(OpCode::Pop)
    } else if b == 88 {
        Some(OpCode::Pop2)
    } else if b == 89 {
        Some(OpCode::Dup(Dup::Dup))
    } else if b == 90 {
        Some(OpCode::Dup(Dup::X1))
    } else if b == 91 {
        Some(OpCode::Dup(Dup::X2))
    } else if b == 92 {
        Some(OpCode::Dup2(Dup::Dup))
    } else if b == 93 {
        Some(OpCode::Dup2(Dup::X1))
    } else if b == 94 {
        Some(OpCode::Dup2(Dup::X2))
    } else if b == 95 {
        Some(OpCode::Swap)
    } else if 96 <= b <= 131 {
        arithmetic_op(b)
    } else if 133 <= b <= 152 {
        conversion_op(b)
    } else if b == 172 {
        Some(OpCode::Ireturn)
    } else if b == 173 {
        Some(OpCode::Lreturn)
    } else if b == 174 {
        Some(OpCode::Freturn)
    } else if b == 175 {
        Some(OpCode::Dreturn)
    } else if b == 176 {
        Some(OpCode::Areturn)
    } else if b == 177 {
        Some(OpCode::Return)
    } else if b == 190 {
        Some(OpCode::ArrayLength)
    } else if b == 191 {
        Some(OpCode::Athrow)
    } else if b == 194 {
        Some(OpCode::Monitorenter)
    } else if b == 195 {
        Some(OpCode::Monitorexit)
    } else {
        None
    }
}

/// The arithmetic and logic instructions, opcodes 96 to 131.
pub open spec fn arithmetic_op(b: u8) -> Option<OpCode> {
    if b == 96 {
        Some(OpCode::Iadd)
    } else if b == 97 {
        Some(OpCode::Ladd)
    } else if b == 98 {
        Some(OpCode::Fadd)
    } else if b == 99 {
        Some(OpCode::Dadd)
    } else if b == 100 {
        Some(OpCode::Isub)
    } else if b == 101 {
        Some(OpCode::Lsub)
    } else if b == 102 {
        Some(OpCode::Fsub)
    } else if b == 103 {
        Some(OpCode::Dsub)
    } else if b == 104 {
        Some(OpCode::Imul)
    } else if b == 105 {
        Some(OpCode::Lmul)
    } else if b == 106 {
        Some(OpCode::Fmul)
    } else if b == 107 {
        Some(OpCode::Dmul)
    } else if b == 108 {
        Some(OpCode::Idiv)
    } else if b == 109 {
        Some(OpCode::Ldiv)
    } else if b == 110 {
        Some(OpCode::Fdiv)
    } else if b == 111 {
        Some(OpCode::Ddiv)
    } else if b == 112 {
        Some(OpCode::Irem)
    } else if b == 113 {
        Some(OpCode::Lrem)
    } else if b == 114 {
        Some(OpCode::Frem)
    } else if b == 115 {
        Some(OpCode::Drem)
    } else if b == 116 {
        Some(OpCode::Ineg)
    } else if b == 117 {
        Some(OpCode::Lneg)
    } else if b == 118 {
        Some(OpCode::Fneg)
    } else if b == 119 {
        Some(OpCode::Dneg)
    } else if b == 120 {
        Some(OpCode::Ishl)
    } else if b == 121 {
        Some(OpCode::Lshl)
    } else if b == 122 {
        Some(OpCode::Ishr)
    } else if b == 123 {
        Some(OpCode::Lshr)
    } else if b == 124 {
        Some(OpCode::Iushr)
    } else if b == 125 {
        Some(OpCode::Lushr)
    } else if b == 126 {
        Some(OpCode::Iand)
    } else if b == 127 {
        Some(OpCode::Land)
    } else if b == 128 {
        Some(OpCode::Ior)
    } else if b == 129 {
        Some(OpCode::Lor)
    } else if b == 130 {
        Some(OpCode::Ixor)
    } else if b == 131 {
        Some(OpCode::Lxor)
    } else {
        None
    }
}

/// The conversion and comparison instructions, opcodes 133 to 152.
pub open spec fn conversion_op(b: u8) -> Option<OpCode> {
    if b == 133 {
        Some(OpCode::I2l)
    } else if b == 134 {
        Some(OpCode::I2f)
    } else if b == 135 {
        Some(OpCode::I2d)
    } else if b == 136 {
        Some(OpCode::L2i)
    } else if b == 137 {
        Some(OpCode::L2f)
    } else if b == 138 {
        Some(OpCode::L2d)
    } else if b == 139 {
        Some(OpCode::F2i)
    } else if b == 140 {
        Some(OpCode::F2l)
    } else if b == 141 {
        Some(OpCode::F2d)
    } else if b == 142 {
        Some(OpCode::D2i)
    } else if b == 143 {
        Some(OpCode::D2l)
    } else if b == 144 {
        Some(OpCode::D2f)
    } else if b == 145 {
        Some(OpCode::I2b)
    } else if b == 146 {
        Some(OpCode::I2c)
    } else if b == 147 {
        Some(OpCode::I2s)
    } else if b == 148 {
        Some(OpCode::Lcmp)
    } else if b == 149 {
        Some(OpCode::Fcmp(FloatCmp::Pl))
    } else if b == 150 {
        Some(OpCode::Fcmp(FloatCmp::Pg))
    } else if b == 151 {
        Some(OpCode::Dcmp(FloatCmp::Pl))
    } else if b == 152 {
        Some(OpCode::Dcmp(FloatCmp::Pg))
    } else {
        None
    }
}

/// The instruction at `p` when it has no constant pool operand and is no jump.
pub open spec fn plain_op(code: Seq<u8>, p: int) -> Option<OpCode> {
    let b = code[p];
    if b == 16 {
        Some(OpCode::Bipush(code[p + 1] as i8 as i32))
    } else if b == 17 {
        Some(OpCode::Sipush(spec_u16(code, p + 1) as i16 as i32))
    } else if b == 21 {
        Some(OpCode::Iload(code[p + 1] as usize))
    } else if b == 22 {
        Some(OpCode::Lload(code[p + 1] as usize))
    } else if b == 23 {
        Some(OpCode::Fload(code[p + 1] as usize))
    } else if b == 24 {
        Some(OpCode::Dload(code[p + 1] as usize))
    } else if b == 25 {
        Some(OpCode::Aload(code[p + 1] as usize))
    } else if b == 54 {
        Some(OpCode::Istore(code[p + 1] as usize))
    } else if b == 55 {
        Some(OpCode::Lstore(code[p + 1] as usize))
    } else if b == 56 {
        Some(OpCode::Fstore(code[p + 1] as usize))
    } else if b == 57 {
        Some(OpCode::Dstore(code[p + 1] as usize))
    } else if b == 58 {
        Some(OpCode::Astore(code[p + 1] as usize))
    } else if b == 132 {
        Some(OpCode::Iinc { index: code[p + 1] as usize, constant: code[p + 2] as i8 as i32 })
    } else if b == 169 {
        Some(OpCode::Ret(code[p + 1] as usize))
    } else if b == 188 {
        match array_type_of(code[p + 1]) {
            Some(t) => Some(OpCode::NewArray(t)),
            None => None,
        }
    } else if b == 196 {
        wide_op(code, p)
    } else {
        simple_op(b)
    }
}

/// A signed byte: the two's complement value of `x`, from -128 to 127.
proof fn lemma_signed_byte(x: u8)
    ensures
        (x as i8 as i32) as int == (if x < 0x80 { x as int } else { x as int - 0x100 }),
{
    assert((x as i8 as i32) as int == (if x < 0x80u8 { x as int } else { x as int - 0x100 })) by (bit_vector);
}

/// A signed 16-bit number: the two's complement value of `x`.
proof fn lemma_signed_short(x: u16)
    ensures
        (x as i16 as i32) as int == (if x < 0x8000 { x as int } else { x as int - 0x1_0000 }),
        (x as i16) as int == (if x < 0x8000 { x as int } else { x as int - 0x1_0000 }),
{
    assert((x as i16 as i32) as int == (if x < 0x8000u16 { x as int } else { x as int - 0x1_0000 })) by (bit_vector);
    assert((x as i16) as int == (if x < 0x8000u16 { x as int } else { x as int - 0x1_0000 })) by (bit_vector);
}

/// A signed 32-bit number: the two's complement value of `x`.
proof fn lemma_signed_int(x: u32)
    ensures
        (x as i32) as int == (if x < 0x8000_0000 { x as int } else { x as int - 0x1_0000_0000 }),
{
    assert((x as i32) as int == (if x < 0x8000_0000u32 { x as int } else { x as int - 0x1_0000_0000 })) by (bit_vector);
}

/// The operands that `bipush`, `sipush` and `iinc` carry are signed, as the class file
/// format says: `bipush b` pushes `b` read as a signed byte (0xFB is -5), `sipush b1 b2`
/// the signed big-endian 16-bit number, and `iinc i c` adds `c` read as a signed byte to
/// local variable `i` (an unsigned index).
pub proof fn lemma_signed_push_operands(code: Seq<u8>, p: int)
    requires
        0 <= p < code.len(),
    ensures
        code[p] == 16 ==> plain_op(code, p) == Some(
            OpCode::Bipush(
                (if code[p + 1] < 0x80 {
                    code[p + 1] as int
                } else {
                    code[p + 1] as int - 0x100
                }) as i32,
            ),
        ),
        code[p] == 17 ==> plain_op(code, p) == Some(
            OpCode::Sipush(
                (if code[p + 1] < 0x80 {
                    code[p + 1] as int * 0x100 + code[p + 2] as int
                } else {
                    code[p + 1] as int * 0x100 + code[p + 2] as int - 0x1_0000
                }) as i32,
            ),
        ),
        code[p] == 132 ==> plain_op(code, p) == Some(
            OpCode::Iinc {
                index: code[p + 1] as usize,
                constant: (if code[p + 2] < 0x80 {
                    code[p + 2] as int
                } else {
                    code[p + 2] as int - 0x100
                }) as i32,
            },
        ),
{
    lemma_signed_byte(code[p + 1]);
    lemma_signed_byte(code[p + 2]);
    let u = spec_u16(code, p + 1);
    assert(u as int == code[p + 1] as int * 256 + code[p + 2] as int);
    lemma_signed_short(u);
}

/// The constant instructions push the values the class file format gives them:
/// `iconst_m1` to `iconst_5` (opcodes 2 to 8) the ints -1 to 5, `lconst_0` and `lconst_1`
/// the longs 0 and 1, `fconst_0` to `fconst_2` the IEEE 754 single bit patterns of 0.0, 1.0
/// and 2.0, `dconst_0` and `dconst_1` the double bit patterns of 0.0 and 1.0.
pub proof fn lemma_constant_instructions()
    ensures
        simple_op(2) == Some(OpCode::Iconst(-1i32)),
        simple_op(3) == Some(OpCode::Iconst(0)),
        simple_op(4) == Some(OpCode::Iconst(1)),
        simple_op(5) == Some(OpCode::Iconst(2)),
        simple_op(6) == Some(OpCode::Iconst(3)),
        simple_op(7) == Some(OpCode::Iconst(4)),
        simple_op(8) == Some(OpCode::Iconst(5)),
        simple_op(9) == Some(OpCode::Lconst(0)),
        simple_op(10) == Some(OpCode::Lconst(1)),
        simple_op(11) == Some(OpCode::Fconst(0)),
        simple_op(12) == Some(OpCode::Fconst(0x3f80_0000)),
        simple_op(13) == Some(OpCode::Fconst(0x4000_0000)),
        simple_op(14) == Some(OpCode::Dconst(0)),
        simple_op(15) == Some(OpCode::Dconst(0x3ff0_0000_0000_0000)),
{
}

/// The short forms of the local variable instructions name variables 0 to 3: `iload_<n>`,
/// `lload_<n>`, `fload_<n>`, `dload_<n>` and `aload_<n>` load variable `n`, `istore_<n>`,
/// `lstore_<n>`, `dstore_<n>` and `astore_<n>` store into it, and `fstore_<n>` is the float
/// store into it.
pub proof fn lemma_short_local_instructions(n: u8)
    requires
        n < 4,
    ensures
        simple_op((26 + n) as u8) == Some(OpCode::Iload(n as usize)),
        simple_op((30 + n) as u8) == Some(OpCode::Lload(n as usize)),
        simple_op((34 + n) as u8) == Some(OpCode::Fload(n as usize)),
        simple_op((38 + n) as u8) == Some(OpCode::Dload(n as usize)),
        simple_op((42 + n) as u8) == Some(OpCode::Aload(n as usize)),
        simple_op((59 + n) as u8) == Some(OpCode::Istore(n as usize)),
        simple_op((63 + n) as u8) == Some(OpCode::Lstore(n as usize)),
        simple_op((67 + n) as u8) == Some(OpCode::Fstore(n as usize)),
        simple_op((71 + n) as u8) == Some(OpCode::Dstore(n as usize)),
        simple_op((75 + n) as u8) == Some(OpCode::Astore(n as usize)),
{
}

// ---------------------------------------------------------------------------------------------
// Jumps

/// Whether opcode `b` is a jump.
pub open spec fn is_branch_byte(b: u8) -> bool {
    (153 <= b <= 168) || (198 <= b <= 201)
}

/// The signed jump distance in bytes of the jump at `p`.
pub open spec fn branch_byte_offset(code: Seq<u8>, p: int) -> int {
    if code[p] == 200 || code[p] == 201 {
        spec_u32(code, p + 1) as i32 as int
    } else {
        spec_u16(code, p + 1) as i16 as int
    }
}

/// The distance of a jump is signed and big-endian: two bytes for the jumps, four for
/// `goto_w` and `jsr_w`, read as two's complement numbers (0xFFFB is 5 bytes back).
pub proof fn lemma_signed_branch_offsets(code: Seq<u8>, p: int)
    requires
        0 <= p < code.len(),
    ensures
        code[p] != 200 && code[p] != 201 ==> branch_byte_offset(code, p) == (if code[p + 1] < 0x80 {
            code[p + 1] as int * 0x100 + code[p + 2] as int
        } else {
            code[p + 1] as int * 0x100 + code[p + 2] as int - 0x1_0000
        }),
        code[p] == 200 || code[p] == 201 ==> branch_byte_offset(code, p) == (if code[p + 1] < 0x80 {
            code[p + 1] as int * 0x100_0000 + code[p + 2] as int * 0x1_0000 + code[p + 3] as int
                * 0x100 + code[p + 4] as int
        } else {
            code[p + 1] as int * 0x100_0000 + code[p + 2] as int * 0x1_0000 + code[p + 3] as int
                * 0x100 + code[p + 4] as int - 0x1_0000_0000
        }),
{
    let u = spec_u16(code, p + 1);
    assert(u as int == code[p + 1] as int * 256 + code[p + 2] as int);
    lemma_signed_short(u);
    let w = spec_u32(code, p + 1);
    assert(w as int == code[p + 1] as int * 0x100_0000 + code[p + 2] as int * 0x1_0000 + code[p + 3] as int
        * 0x100 + code[p + 4] as int);
    lemma_signed_int(w);
}

/// Distance and direction of a signed jump distance.
pub open spec fn split_offset(offset: int) -> (int, OffsetDirection) {
    if offset > 0 {
        (offset, OffsetDirection::Forward)
    } else {
        (-offset, OffsetDirection::Backward)
    }
}

/// The jump instruction that opcode `b` stands for, with distance `o` and direction `d`.
pub open spec fn branch_op(b: u8, o: usize, d: OffsetDirection) -> OpCode {
    if b == 153 {
        OpCode::IfEq(o, d)
    } else if b == 154 {
        OpCode::IfNe(o, d)
    } else if b == 155 {
        OpCode::IfLt(o, d)
    } else if b == 156 {
        OpCode::IfGe(o, d)
    } else if b == 157 {
        OpCode::IfGt(o, d)
    } else if b == 158 {
        OpCode::IfLe(o, d)
    } else if b == 159 {
        OpCode::IficmpEq(o, d)
    } else if b == 160 {
        OpCode::IficmpNe(o, d)
    } else if b == 161 {
        OpCode::IficmpLt(o, d)
    } else if b == 162 {
        OpCode::IficmpGe(o, d)
    } else if b == 163 {
        OpCode::IficmpGt(o, d)
    } else if b == 164 {
        OpCode::IficmpLe(o, d)
    } else if b == 165 {
        OpCode::IfacmpEq(o, d)
    } else if b == 166 {
        OpCode::IfacmpNe(o, d)
    } else if b == 167 || b == 200 {
        OpCode::Goto(o, d)
    } else if b == 168 || b == 201 {
        OpCode::Jsr(o, d)
    } else if b == 198 {
        OpCode::IfNull(o, d)
    } else {
        OpCode::IfNonNull(o, d)
    }
}

/// Distance and direction of a jump instruction.
pub open spec fn branch_parts(op: OpCode) -> Option<(usize, OffsetDirection)> {
    match op {
        OpCode::IfEq(o, d) => Some((o, d)),
        OpCode::IfNe(o, d) => Some((o, d)),
        OpCode::IfLt(o, d) => Some((o, d)),
        OpCode::IfGe(o, d) => Some((o, d)),
        OpCode::IfGt(o, d) => Some((o, d)),
        OpCode::IfLe(o, d) => Some((o, d)),
        OpCode::IficmpEq(o, d) => Some((o, d)),
        OpCode::IficmpNe(o, d) => Some((o, d)),
        OpCode::IficmpLt(o, d) => Some((o, d)),
        OpCode::IficmpGe(o, d) => Some((o, d)),
        OpCode::IficmpGt(o, d) => Some((o, d)),
        OpCode::IficmpLe(o, d) => Some((o, d)),
        OpCode::IfacmpEq(o, d) => Some((o, d)),
        OpCode::IfacmpNe(o, d) => Some((o, d)),
        OpCode::Goto(o, d) => Some((o, d)),
        OpCode::Jsr(o, d) => Some((o, d)),
        OpCode::IfNull(o, d) => Some((o, d)),
        OpCode::IfNonNull(o, d) => Some((o, d)),
        _ => None,
    }
}

/// The jump instruction `op` with its distance replaced by `o`.
pub open spec fn with_branch_offset(op: OpCode, o: usize) -> OpCode {
    match op {
        OpCode::IfEq(_, d) => OpCode::IfEq(o, d),
        OpCode::IfNe(_, d) => OpCode::IfNe(o, d),
        OpCode::IfLt(_, d) => OpCode::IfLt(o, d),
        OpCode::IfGe(_, d) => OpCode::IfGe(o, d),
        OpCode::IfGt(_, d) => OpCode::IfGt(o, d),
        OpCode::IfLe(_, d) => OpCode::IfLe(o, d),
        OpCode::IficmpEq(_, d) => OpCode::IficmpEq(o, d),
        OpCode::IficmpNe(_, d) => OpCode::IficmpNe(o, d),
        OpCode::IficmpLt(_, d) => OpCode::IficmpLt(o, d),
        OpCode::IficmpGe(_, d) => OpCode::IficmpGe(o, d),
        OpCode::IficmpGt(_, d) => OpCode::IficmpGt(o, d),
        OpCode::IficmpLe(_, d) => OpCode::IficmpLe(o, d),
        OpCode::IfacmpEq(_, d) => OpCode::IfacmpEq(o, d),
        OpCode::IfacmpNe(_, d) => OpCode::IfacmpNe(o, d),
        OpCode::Goto(_, d) => OpCode::Goto(o, d),
        OpCode::Jsr(_, d) => OpCode::Jsr(o, d),
        OpCode::IfNull(_, d) => OpCode::IfNull(o, d),
        OpCode::IfNonNull(_, d) => OpCode::IfNonNull(o, d),
        _ => op,
    }
}

// ---------------------------------------------------------------------------------------------
// Instructions with constant pool operands

/// The run-time constant pool entry that a one-based reference points to.
pub open spec fn runtime_entry_at(cp: Seq<RuntimeCPEntryModel>, index: int) -> Option<RuntimeCPEntryModel> {
    if 1 <= index <= cp.len() {
        Some(cp[index - 1])
    } else {
        None
    }
}

/// The constant pool reference of the instruction at `p`: one byte for `ldc`, two otherwise.
pub open spec fn cp_operand(code: Seq<u8>, p: int) -> int {
    if code[p] == 18 {
        code[p + 1] as int
    } else {
        spec_u16(code, p + 1) as int
    }
}

/// Constant pool operands as the class file format gives them: `ldc` carries a one-byte
/// index, the other instructions a two-byte big-endian index; indices count from 1, index 0
/// names no entry. `ldc`, `ldc_w` and `ldc2_w` push the constant of the entry they name,
/// with the entry's own kind and value.
pub proof fn lemma_constant_pool_operands(code: Seq<u8>, p: int, cp: Seq<RuntimeCPEntryModel>, op: OpCode)
    requires
        0 <= p < code.len(),
    ensures
        code[p] == 18 ==> cp_operand(code, p) == code[p + 1] as int,
        code[p] != 18 ==> cp_operand(code, p) == code[p + 1] as int * 256 + code[p + 2] as int,
        runtime_entry_at(cp, 0) is None,
        forall|k: int| 1 <= k <= cp.len() ==> #[trigger] runtime_entry_at(cp, k) == Some(cp[k - 1]),
        (code[p] == 18 || code[p] == 19 || code[p] == 20) && 1 <= cp_operand(code, p) <= cp.len() ==> ({
            let e = cp[cp_operand(code, p) - 1];
            &&& e matches RuntimeCPEntryModel::IntegerInfo(v) ==> (cp_op(code, p, cp, op) <==> op
                == OpCode::Ldc(Ldc::Int(v)))
            &&& e matches RuntimeCPEntryModel::FloatInfo(v) ==> (cp_op(code, p, cp, op) <==> op
                == OpCode::Ldc(Ldc::Float(v)))
            &&& e matches RuntimeCPEntryModel::LongInfo(v) ==> (cp_op(code, p, cp, op) <==> op
                == OpCode::Ldc(Ldc::Long(v)))
            &&& e matches RuntimeCPEntryModel::DoubleInfo(v) ==> (cp_op(code, p, cp, op) <==> op
                == OpCode::Ldc(Ldc::Double(v)))
        }),
{
}

/// Whether opcode `b` has a constant pool operand.
pub open spec fn is_cp_byte(b: u8) -> bool {
    b == 18 || b == 19 || b == 20 || b == 178 || b == 179 || b == 182 || b == 183 || b == 184
        || b == 189 || b == 197
}

/// The identifier of the array class whose components are of the class `component`.
pub open spec fn array_of(component: ClassIdentifierModel) -> ClassIdentifierModel {
    match component.class_name {
        ClassNameModel::Array { dimensions, name } => ClassIdentifierModel {
            package: component.package,
            class_name: ClassNameModel::Array { dimensions: (dimensions + 1) as usize, name },
        },
        ClassNameModel::Plain(n) => ClassIdentifierModel {
            package: component.package,
            class_name: ClassNameModel::Array { dimensions: 1, name: ArrayNameModel::Class(n) },
        },
    }
}

/// Whether the constant pool operand of the instruction at `p` refers to a fitting entry.
pub open spec fn cp_operand_resolves(code: Seq<u8>, p: int, cp: Seq<RuntimeCPEntryModel>) -> bool {
    let b = code[p];
    match runtime_entry_at(cp, cp_operand(code, p)) {
        None => false,
        Some(e) => {
            if b == 18 || b == 19 || b == 20 {
                e is StringInfo || e is IntegerInfo || e is FloatInfo || e is LongInfo
                    || e is DoubleInfo
            } else if b == 178 || b == 179 {
                e matches RuntimeCPEntryModel::FieldRefInfo { class, .. }
                    && spec_class_identifier(class) is Some
            } else if b == 182 || b == 183 || b == 184 {
                e matches RuntimeCPEntryModel::MethodRefInfo { class, descriptor, .. }
                    && spec_class_identifier(class) is Some && descriptor_accepted(descriptor)
            } else if b == 189 {
                e matches RuntimeCPEntryModel::Class { name } && spec_class_identifier(name) is Some
                    && (spec_class_identifier(name)->0.class_name matches ClassNameModel::Array {
                    dimensions,
                    ..
                } ==> dimensions < usize::MAX)
            } else {
                e matches RuntimeCPEntryModel::Class { name } && spec_class_identifier(name) is Some
                    && spec_class_identifier(name)->0.class_name is Array
            }
        },
    }
}

/// Whether `op` is the instruction that the constant pool operand of the instruction at `p`
/// denotes.
pub open spec fn cp_op(code: Seq<u8>, p: int, cp: Seq<RuntimeCPEntryModel>, op: OpCode) -> bool {
    let b = code[p];
    let e = runtime_entry_at(cp, cp_operand(code, p))->0;
    if b == 18 || b == 19 || b == 20 {
        match e {
            RuntimeCPEntryModel::StringInfo(s) => op matches OpCode::Ldc(Ldc::String(t)) && t@
                == s,
            RuntimeCPEntryModel::IntegerInfo(v) => op == OpCode::Ldc(Ldc::Int(v)),
            RuntimeCPEntryModel::FloatInfo(v) => op == OpCode::Ldc(Ldc::Float(v)),
            RuntimeCPEntryModel::LongInfo(v) => op == OpCode::Ldc(Ldc::Long(v)),
            RuntimeCPEntryModel::DoubleInfo(v) => op == OpCode::Ldc(Ldc::Double(v)),
            _ => false,
        }
    } else if b == 178 || b == 179 {
        match e {
            RuntimeCPEntryModel::FieldRefInfo { class, name, .. } => {
                if b == 178 {
                    op matches OpCode::GetStatic { class: c, field_name: f } && c@
                        == spec_class_identifier(class)->0 && f@ == name
                } else {
                    op matches OpCode::PutStatic { class: c, field_name: f } && c@
                        == spec_class_identifier(class)->0 && f@ == name
                }
            },
            _ => false,
        }
    } else if b == 182 || b == 183 || b == 184 {
        match e {
            RuntimeCPEntryModel::MethodRefInfo { class, name, descriptor } => {
                let m = match op {
                    OpCode::InvokeVirtual(m) => if b == 182 {
                        Some(m)
                    } else {
                        None
                    },
                    OpCode::InvokeSpecial(m) => if b == 183 {
                        Some(m)
                    } else {
                        None
                    },
                    OpCode::InvokeStatic(m) => if b == 184 {
                        Some(m)
                    } else {
                        None
                    },
                    _ => None,
                };
                m matches Some(m) && m.class_name@ == spec_class_identifier(class)->0
                    && m.descriptor.name@ == name && m.parameters_view() == descriptor_meaning(
                    descriptor,
                ).0 && m.return_view() == descriptor_meaning(descriptor).1
            },
            _ => false,
        }
    } else if b == 189 {
        match e {
            RuntimeCPEntryModel::Class { name } => op matches OpCode::AnewArray(c) && c@
                == array_of(spec_class_identifier(name)->0),
            _ => false,
        }
    } else {
        match e {
            RuntimeCPEntryModel::Class { name } => op matches OpCode::MultiAnewArray(c) && c@
                == spec_class_identifier(name)->0,
            _ => false,
        }
    }
}

// ---------------------------------------------------------------------------------------------
// Whole instructions

/// Whether the instruction at `p` can be decoded: its operands fit and refer to fitting
/// constant pool entries. Jump targets are judged separately.
pub open spec fn instruction_resolves(code: Seq<u8>, p: int, cp: Seq<RuntimeCPEntryModel>) -> bool {
    let b = code[p];
    if is_branch_byte(b) {
        branch_byte_offset(code, p) != i32::MIN
    } else if is_cp_byte(b) {
        cp_operand_resolves(code, p, cp)
    } else {
        plain_op(code, p) is Some
    }
}

/// Whether `op` is the instruction at `p`, with a jump's distance still counted in bytes.
pub open spec fn raw_instruction(code: Seq<u8>, p: int, cp: Seq<RuntimeCPEntryModel>, op: OpCode) -> bool {
    let b = code[p];
    if is_branch_byte(b) {
        let (o, d) = split_offset(branch_byte_offset(code, p));
        op == branch_op(b, o as usize, d)
    } else if is_cp_byte(b) {
        cp_op(code, p, cp, op)
    } else {
        plain_op(code, p) == Some(op)
    }
}

/// Whether instruction `k` of the layout `sizes` may jump `offset` bytes: the target is the
/// start of an instruction or the end of the code.
pub open spec fn branch_target_exists(sizes: Seq<u8>, k: int, offset: int) -> bool {
    exists|j: int|
        0 <= j <= sizes.len() && #[trigger] byte_position(sizes, j) == byte_position(sizes, k)
            + offset
}

/// Whether jump `op` at instruction `k` jumps by `offset` bytes, counted in instructions.
pub open spec fn branch_lands(sizes: Seq<u8>, k: int, offset: int, op: OpCode) -> bool {
    match branch_parts(op) {
        Some((o, d)) => if offset > 0 {
            d == OffsetDirection::Forward && k + o <= sizes.len() && byte_position(sizes, k + o)
                == byte_position(sizes, k) + offset
        } else {
            d == OffsetDirection::Backward && o <= k && byte_position(sizes, k - o)
                == byte_position(sizes, k) + offset
        },
        None => false,
    }
}

/// Whether `op` is instruction `k` of `code`, laid out as `sizes`, with jump distances
/// counted in instructions.
pub open spec fn decoded_instruction(
    code: Seq<u8>,
    sizes: Seq<u8>,
    k: int,
    cp: Seq<RuntimeCPEntryModel>,
    op: OpCode,
) -> bool {
    let p = byte_position(sizes, k);
    let b = code[p];
    if is_branch_byte(b) {
        let offset = branch_byte_offset(code, p);
        let (o, d) = split_offset(offset);
        branch_lands(sizes, k, offset, op) && op == branch_op(b, (branch_parts(op)->0).0, d)
    } else {
        raw_instruction(code, p, cp, op)
    }
}

/// Whether `code` decodes with the run-time constant pool `cp`.
pub open spec fn code_decodes(code: Seq<u8>, cp: Seq<RuntimeCPEntryModel>) -> bool {
    match layout_from(code, 0) {
        Some(sizes) => forall|k: int|
            0 <= k < sizes.len() ==> {
                &&& instruction_resolves(code, #[trigger] byte_position(sizes, k), cp)
                &&& is_branch_byte(code[byte_position(sizes, k)]) ==> branch_target_exists(
                    sizes,
                    k,
                    branch_byte_offset(code, byte_position(sizes, k)),
                )
            },
        None => false,
    }
}


// ---------------------------------------------------------------------------------------------
// Decoding

fn decode_simple(b: u8) -> (r: Option<OpCode>)
    ensures
        r == simple_op(b),
{
    if b == 0 {
        Some(OpCode::Nop)
    } else if b == 1 {
        Some(OpCode::AconstNull)
    } else if 2 <= b && b <= 8 {
        Some(OpCode::Iconst(b as i32 - 3))
    } else if 9 <= b && b <= 10 {
        Some(OpCode::Lconst(b as i64 - 9))
    } else if 11 <= b && b <= 13 {
        Some(OpCode::Fconst(if b == 11 { 0 } else if b == 12 { 0x3f80_0000 } else { 0x4000_0000 }))
    } else if 14 <= b && b <= 15 {
        Some(OpCode::Dconst(if b == 14 { 0 } else { 0x3ff0_0000_0000_0000 }))
    } else if 26 <= b && b <= 29 {
        Some(OpCode::Iload((b - 26) as usize))
    } else if 30 <= b && b <= 33 {
        Some(OpCode::Lload((b - 30) as usize))
    } else if 34 <= b && b <= 37 {
        Some(OpCode::Fload((b - 34) as usize))
    } else if 38 <= b && b <= 41 {
        Some(OpCode::Dload((b - 38) as usize))
    } else if 42 <= b && b <= 45 {
        Some(OpCode::Aload((b - 42) as usize))
    } else if b == 46 {
        Some(OpCode::Iaload)
    } else if b == 47 {
        Some(OpCode::Laload)
    } else if b == 48 {
        Some(OpCode::Faload)
    } else if b == 49 {
        Some(OpCode::Daload)
    } else if b == 50 {
        Some(OpCode::Aaload)
    } else if b == 51 {
        Some(OpCode::Baload)
    } else if b == 52 {
        Some(OpCode::Caload)
    } else if b == 53 {
        Some(OpCode::Saload)
    } else if 59 <= b && b <= 62 {
        Some(OpCode::Istore((b - 59) as usize))
    } else if 63 <= b && b <= 66 {
        Some(OpCode::Lstore((b - 63) as usize))
    } else if 67 <= b && b <= 70 {
        Some(OpCode::Fstore((b - 67) as usize))
    } else if 71 <= b && b <= 74 {
        Some(OpCode::Dstore((b - 71) as usize))
    } else if 75 <= b && b <= 78 {
        Some(OpCode::Astore((b - 75) as usize))
    } else if b == 79 {
        Some(OpCode::Iastore)
    } else if b == 80 {
        Some(OpCode::Lastore)
    } else if b == 81 {
        Some(OpCode::Fastore)
    } else if b == 82 {
        Some(OpCode::Dastore)
    } else if b == 83 {
        Some(OpCode::Aastore)
    } else if b == 84 {
        Some(OpCode::Bastore)
    } else if b == 85 {
        Some(OpCode::Castore)
    } else if b == 86 {
        Some(OpCode::Sastore)
    } else if b == 87 {
        Some(OpCode::Pop)
    } else if b == 88 {
        Some(OpCode::Pop2)
    } else if b == 89 {
        Some(OpCode::Dup(Dup::Dup))
    } else if b == 90 {
        Some(OpCode::Dup(Dup::X1))
    } else if b == 91 {
        Some(OpCode::Dup(Dup::X2))
    } else if b == 92 {
        Some(OpCode::Dup2(Dup::Dup))
    } else if b == 93 {
        Some(OpCode::Dup2(Dup::X1))
    } else if b == 94 {
        Some(OpCode::Dup2(Dup::X2))
    } else if b == 95 {
        Some(OpCode::Swap)
    } else if 96 <= b && b <= 131 {
        decode_arithmetic(b)
    } else if 133 <= b && b <= 152 {
        decode_conversion(b)
    } else if b == 172 {
        Some(OpCode::Ireturn)
    } else if b == 173 {
        Some(OpCode::Lreturn)
    } else if b == 174 {
        Some(OpCode::Freturn)
    } else if b == 175 {
        Some(OpCode::Dreturn)
    } else if b == 176 {
        Some(OpCode::Areturn)
    } else if b == 177 {
        Some(OpCode::Return)
    } else if b == 190 {
        Some(OpCode::ArrayLength)
    } else if b == 191 {
        Some(OpCode::Athrow)
    } else if b == 194 {
        Some(OpCode::Monitorenter)
    } else if b == 195 {
        Some(OpCode::Monitorexit)
    } else {
        None
    }
}

fn decode_arithmetic(b: u8) -> (r: Option<OpCode>)
    ensures
        r == arithmetic_op(b),
{
    if b == 96 {
        Some(OpCode::Iadd)
    } else if b == 97 {
        Some(OpCode::Ladd)
    } else if b == 98 {
        Some(OpCode::Fadd)
    } else if b == 99 {
        Some(OpCode::Dadd)
    } else if b == 100 {
        Some(OpCode::Isub)
    } else if b == 101 {
        Some(OpCode::Lsub)
    } else if b == 102 {
        Some(OpCode::Fsub)
    } else if b == 103 {
        Some(OpCode::Dsub)
    } else if b == 104 {
        Some(OpCode::Imul)
    } else if b == 105 {
        Some(OpCode::Lmul)
    } else if b == 106 {
        Some(OpCode::Fmul)
    } else if b == 107 {
        Some(OpCode::Dmul)
    } else if b == 108 {
        Some(OpCode::Idiv)
    } else if b == 109 {
        Some(OpCode::Ldiv)
    } else if b == 110 {
        Some(OpCode::Fdiv)
    } else if b == 111 {
        Some(OpCode::Ddiv)
    } else if b == 112 {
        Some(OpCode::Irem)
    } else if b == 113 {
        Some(OpCode::Lrem)
    } else if b == 114 {
        Some(OpCode::Frem)
    } else if b == 115 {
        Some(OpCode::Drem)
    } else if b == 116 {
        Some(OpCode::Ineg)
    } else if b == 117 {
        Some(OpCode::Lneg)
    } else if b == 118 {
        Some(OpCode::Fneg)
    } else if b == 119 {
        Some(OpCode::Dneg)
    } else if b == 120 {
        Some(OpCode::Ishl)
    } else if b == 121 {
        Some(OpCode::Lshl)
    } else if b == 122 {
        Some(OpCode::Ishr)
    } else if b == 123 {
        Some(OpCode::Lshr)
    } else if b == 124 {
        Some(OpCode::Iushr)
    } else if b == 125 {
        Some(OpCode::Lushr)
    } else if b == 126 {
        Some(OpCode::Iand)
    } else if b == 127 {
        Some(OpCode::Land)
    } else if b == 128 {
        Some(OpCode::Ior)
    } else if b == 129 {
        Some(OpCode::Lor)
    } else if b == 130 {
        Some(OpCode::Ixor)
    } else if b == 131 {
        Some(OpCode::Lxor)
    } else {
        None
    }
}

fn decode_conversion(b: u8) -> (r: Option<OpCode>)
    ensures
        r == conversion_op(b),
{
    if b == 133 {
        Some(OpCode::I2l)
    } else if b == 134 {
        Some(OpCode::I2f)
    } else if b == 135 {
        Some(OpCode::I2d)
    } else if b == 136 {
        Some(OpCode::L2i)
    } else if b == 137 {
        Some(OpCode::L2f)
    } else if b == 138 {
        Some(OpCode::L2d)
    } else if b == 139 {
        Some(OpCode::F2i)
    } else if b == 140 {
        Some(OpCode::F2l)
    } else if b == 141 {
        Some(OpCode::F2d)
    } else if b == 142 {
        Some(OpCode::D2i)
    } else if b == 143 {
        Some(OpCode::D2l)
    } else if b == 144 {
        Some(OpCode::D2f)
    } else if b == 145 {
        Some(OpCode::I2b)
    } else if b == 146 {
        Some(OpCode::I2c)
    } else if b == 147 {
        Some(OpCode::I2s)
    } else if b == 148 {
        Some(OpCode::Lcmp)
    } else if b == 149 {
        Some(OpCode::Fcmp(FloatCmp::Pl))
    } else if b == 150 {
        Some(OpCode::Fcmp(FloatCmp::Pg))
    } else if b == 151 {
        Some(OpCode::Dcmp(FloatCmp::Pl))
    } else if b == 152 {
        Some(OpCode::Dcmp(FloatCmp::Pg))
    } else {
        None
    }
}


fn read_u16_at(code: &[u8], p: usize) -> (r: u16)
    requires
        p + 2 <= code.len(),
    ensures
        r == spec_u16(code@, p as int),
{
    (code[p] as u16) * 256 + code[p + 1] as u16
}

fn read_u32_at(code: &[u8], p: usize) -> (r: u32)
    requires
        p + 4 <= code.len(),
    ensures
        r == spec_u32(code@, p as int),
{
    (code[p] as u32) * 16777216 + (code[p + 1] as u32) * 65536 + (code[p + 2] as u32) * 256
        + code[p + 3] as u32
}

fn decode_wide(code: &[u8], p: usize) -> (r: Option<OpCode>)
    requires
        p + 4 <= code.len(),
        code@[p + 1] == 132 ==> p + 6 <= code.len(),
    ensures
        r == wide_op(code@, p as int),
{
    let w = code[p + 1];
    let idx = read_u16_at(code, p + 2) as usize;
    if w == 21 {
        Some(OpCode::Iload(idx))
    } else if w == 22 {
        Some(OpCode::Lload(idx))
    } else if w == 23 {
        Some(OpCode::Fload(idx))
    } else if w == 24 {
        Some(OpCode::Dload(idx))
    } else if w == 25 {
        Some(OpCode::Aload(idx))
    } else if w == 54 {
        Some(OpCode::Istore(idx))
    } else if w == 55 {
        Some(OpCode::Lstore(idx))
    } else if w == 56 {
        Some(OpCode::Fstore(idx))
    } else if w == 57 {
        Some(OpCode::Dstore(idx))
    } else if w == 58 {
        Some(OpCode::Astore(idx))
    } else if w == 132 {
        Some(OpCode::Iinc { index: idx, constant: read_u16_at(code, p + 4) as i16 as i32 })
    } else if w == 169 {
        Some(OpCode::Ret(idx))
    } else {
        None
    }
}

fn decode_plain(code: &[u8], p: usize) -> (r: Option<OpCode>)
    requires
        instr_len(code@, p as int) is Some,
    ensures
        r == plain_op(code@, p as int),
{
    let b = code[p];
    if b == 16 {
        Some(OpCode::Bipush(code[p + 1] as i8 as i32))
    } else if b == 17 {
        Some(OpCode::Sipush(read_u16_at(code, p + 1) as i16 as i32))
    } else if b == 21 {
        Some(OpCode::Iload(code[p + 1] as usize))
    } else if b == 22 {
        Some(OpCode::Lload(code[p + 1] as usize))
    } else if b == 23 {
        Some(OpCode::Fload(code[p + 1] as usize))
    } else if b == 24 {
        Some(OpCode::Dload(code[p + 1] as usize))
    } else if b == 25 {
        Some(OpCode::Aload(code[p + 1] as usize))
    } else if b == 54 {
        Some(OpCode::Istore(code[p + 1] as usize))
    } else if b == 55 {
        Some(OpCode::Lstore(code[p + 1] as usize))
    } else if b == 56 {
        Some(OpCode::Fstore(code[p + 1] as usize))
    } else if b == 57 {
        Some(OpCode::Dstore(code[p + 1] as usize))
    } else if b == 58 {
        Some(OpCode::Astore(code[p + 1] as usize))
    } else if b == 132 {
        Some(OpCode::Iinc { index: code[p + 1] as usize, constant: code[p + 2] as i8 as i32 })
    } else if b == 169 {
        Some(OpCode::Ret(code[p + 1] as usize))
    } else if b == 188 {
        let t = code[p + 1];
        if 4 <= t && t <= 11 {
            Some(OpCode::NewArray(ArrayType::from_int(t)))
        } else {
            None
        }
    } else if b == 196 {
        decode_wide(code, p)
    } else {
        decode_simple(b)
    }
}

/// Length in bytes of the instruction at `p`.
pub fn instruction_length(code: &[u8], p: usize) -> (r: Result<u8, OpcodeError>)
    requires
        p < code@.len(),
    ensures
        r is Ok <==> instr_len(code@, p as int) is Some,
        r matches Ok(l) ==> instr_len(code@, p as int) == Some(l as int),
        r matches Err(OpcodeError::Unsupported(b)) ==> b == code@[p as int] && is_unsupported(b),
        r matches Err(OpcodeError::InvalidOpcode(b)) ==> b == code@[p as int] && b >= 202,
        r matches Err(OpcodeError::UnsupportedWide(w)) ==> code@[p as int] == 196 && p + 1
            < code@.len() && w == code@[p + 1] && wide_len(w) is None,
{
    let b = code[p];
    let l: u8 = if b <= 15 {
        1
    } else if b == 16 {
        2
    } else if b == 17 {
        3
    } else if b == 18 {
        2
    } else if b <= 20 {
        3
    } else if b <= 25 {
        2
    } else if b <= 53 {
        1
    } else if b <= 58 {
        2
    } else if b <= 131 {
        1
    } else if b == 132 {
        3
    } else if b <= 152 {
        1
    } else if b <= 168 {
        3
    } else if b == 169 {
        2
    } else if b <= 171 {
        return Err(OpcodeError::Unsupported(b));
    } else if b <= 177 {
        1
    } else if b <= 179 {
        3
    } else if b <= 181 {
        return Err(OpcodeError::Unsupported(b));
    } else if b <= 184 {
        3
    } else if b <= 187 {
        return Err(OpcodeError::Unsupported(b));
    } else if b == 188 {
        2
    } else if b == 189 {
        3
    } else if b <= 191 {
        1
    } else if b <= 193 {
        return Err(OpcodeError::Unsupported(b));
    } else if b <= 195 {
        1
    } else if b == 196 {
        if p + 1 < code.len() {
            let w = code[p + 1];
            if w == 132 {
                6
            } else if (21 <= w && w <= 25) || (54 <= w && w <= 58) || w == 169 {
                4
            } else {
                return Err(OpcodeError::UnsupportedWide(w));
            }
        } else {
            return Err(OpcodeError::Truncated);
        }
    } else if b == 197 {
        4
    } else if b <= 199 {
        3
    } else if b <= 201 {
        5
    } else {
        return Err(OpcodeError::InvalidOpcode(b));
    };
    if code.len() - p < l as usize {
        return Err(OpcodeError::Truncated);
    }
    Ok(l)
}

/// Splits a signed jump distance into its size and direction; a distance of zero counts as
/// backward.
pub fn signed_offset_to_usize_and_direction(offset: i32) -> (r: (usize, OffsetDirection))
    requires
        offset != i32::MIN,
    ensures
        (r.0 as int, r.1) == split_offset(offset as int),
{
    if offset > 0 {
        (offset as usize, OffsetDirection::Forward)
    } else {
        ((-offset) as usize, OffsetDirection::Backward)
    }
}

fn make_branch(b: u8, o: usize, d: OffsetDirection) -> (r: OpCode)
    requires
        is_branch_byte(b),
    ensures
        r == branch_op(b, o, d),
{
    if b == 153 {
        OpCode::IfEq(o, d)
    } else if b == 154 {
        OpCode::IfNe(o, d)
    } else if b == 155 {
        OpCode::IfLt(o, d)
    } else if b == 156 {
        OpCode::IfGe(o, d)
    } else if b == 157 {
        OpCode::IfGt(o, d)
    } else if b == 158 {
        OpCode::IfLe(o, d)
    } else if b == 159 {
        OpCode::IficmpEq(o, d)
    } else if b == 160 {
        OpCode::IficmpNe(o, d)
    } else if b == 161 {
        OpCode::IficmpLt(o, d)
    } else if b == 162 {
        OpCode::IficmpGe(o, d)
    } else if b == 163 {
        OpCode::IficmpGt(o, d)
    } else if b == 164 {
        OpCode::IficmpLe(o, d)
    } else if b == 165 {
        OpCode::IfacmpEq(o, d)
    } else if b == 166 {
        OpCode::IfacmpNe(o, d)
    } else if b == 167 || b == 200 {
        OpCode::Goto(o, d)
    } else if b == 168 || b == 201 {
        OpCode::Jsr(o, d)
    } else if b == 198 {
        OpCode::IfNull(o, d)
    } else {
        OpCode::IfNonNull(o, d)
    }
}

fn decode_branch(code: &[u8], p: usize) -> (r: Option<OpCode>)
    requires
        instr_len(code@, p as int) is Some,
        is_branch_byte(code@[p as int]),
    ensures
        r is Some <==> branch_byte_offset(code@, p as int) != i32::MIN,
        r matches Some(op) ==> op == branch_op(
            code@[p as int],
            split_offset(branch_byte_offset(code@, p as int)).0 as usize,
            split_offset(branch_byte_offset(code@, p as int)).1,
        ),
{
    let b = code[p];
    let offset: i32 = if b == 200 || b == 201 {
        read_u32_at(code, p + 1) as i32
    } else {
        read_u16_at(code, p + 1) as i16 as i32
    };
    if offset == i32::MIN {
        return None;
    }
    let (o, d) = signed_offset_to_usize_and_direction(offset);
    Some(make_branch(b, o, d))
}

fn make_symbolic_method(class: &str, name: &str, descriptor: &str) -> (r: Option<SymbolicMethod>)
    ensures
        r is Some <==> (spec_class_identifier(class@) is Some && descriptor_accepted(
            descriptor@,
        )),
        r matches Some(m) ==> m.class_name@ == spec_class_identifier(class@)->0
            && m.descriptor.name@ == name@ && m.parameters_view() == descriptor_meaning(
            descriptor@,
        ).0 && m.return_view() == descriptor_meaning(descriptor@).1,
{
    let class_name = parse_class_identifier(class)?;
    let (params, ret) = try_parse_method_arguments(descriptor)?;
    Some(
        SymbolicMethod {
            class_name,
            descriptor: MethodDescriptor { name: name.to_owned(), descriptor: (params, ret) },
        },
    )
}

/// The identifier of the array class whose components are of class `component`.
pub fn array_class_of(component: ClassIdentifier) -> (r: ClassIdentifier)
    requires
        component.class_name matches ClassName::Array { dimensions, .. } ==> dimensions
            < usize::MAX,
    ensures
        r@ == array_of(component@),
{
    match component.class_name {
        ClassName::Array { dimensions, name } => ClassIdentifier {
            package: component.package,
            class_name: ClassName::Array { dimensions: dimensions + 1, name },
        },
        ClassName::Plain(n) => ClassIdentifier {
            package: component.package,
            class_name: ClassName::Array {
                dimensions: 1,
                name: crate::class::ArrayName::Class(n),
            },
        },
    }
}

fn decode_cp_instruction(code: &[u8], p: usize, cp: &Vec<RuntimeCPEntry>) -> (r: Option<OpCode>)
    requires
        instr_len(code@, p as int) is Some,
        is_cp_byte(code@[p as int]),
    ensures
        r is Some <==> cp_operand_resolves(code@, p as int, runtime_cp_view(cp@)),
        r matches Some(op) ==> cp_op(code@, p as int, runtime_cp_view(cp@), op),
{
    let b = code[p];
    let index: usize = if b == 18 {
        code[p + 1] as usize
    } else {
        read_u16_at(code, p + 1) as usize
    };
    if index == 0 || index > cp.len() {
        return None;
    }
    let e = &cp[index - 1];
    assert(runtime_entry_at(runtime_cp_view(cp@), index as int) == Some(e@));
    if b == 18 || b == 19 || b == 20 {
        match e {
            RuntimeCPEntry::StringInfo(s) => Some(OpCode::Ldc(Ldc::String(s.clone()))),
            RuntimeCPEntry::IntegerInfo(v) => Some(OpCode::Ldc(Ldc::Int(*v))),
            RuntimeCPEntry::FloatInfo(v) => Some(OpCode::Ldc(Ldc::Float(*v))),
            RuntimeCPEntry::LongInfo(v) => Some(OpCode::Ldc(Ldc::Long(*v))),
            RuntimeCPEntry::DoubleInfo(v) => Some(OpCode::Ldc(Ldc::Double(*v))),
            _ => None,
        }
    } else if b == 178 || b == 179 {
        match e {
            RuntimeCPEntry::FieldRefInfo { class, name, .. } => {
                let c = parse_class_identifier(class.as_str())?;
                let f = name.clone();
                if b == 178 {
                    Some(OpCode::GetStatic { class: c, field_name: f })
                } else {
                    Some(OpCode::PutStatic { class: c, field_name: f })
                }
            },
            _ => None,
        }
    } else if b == 182 || b == 183 || b == 184 {
        match e {
            RuntimeCPEntry::MethodRefInfo { class, name, descriptor } => {
                let m = make_symbolic_method(class.as_str(), name.as_str(), descriptor.as_str())?;
                if b == 182 {
                    Some(OpCode::InvokeVirtual(m))
                } else if b == 183 {
                    Some(OpCode::InvokeSpecial(m))
                } else {
                    Some(OpCode::InvokeStatic(m))
                }
            },
            _ => None,
        }
    } else if b == 189 {
        match e {
            RuntimeCPEntry::Class { name } => {
                let c = parse_class_identifier(name.as_str())?;
                match &c.class_name {
                    ClassName::Array { dimensions, .. } => {
                        if *dimensions == usize::MAX {
                            return None;
                        }
                    },
                    ClassName::Plain(_) => {},
                }
                Some(OpCode::AnewArray(array_class_of(c)))
            },
            _ => None,
        }
    } else {
        match e {
            RuntimeCPEntry::Class { name } => {
                let c = parse_class_identifier(name.as_str())?;
                match &c.class_name {
                    ClassName::Array { .. } => Some(OpCode::MultiAnewArray(c)),
                    ClassName::Plain(_) => None,
                }
            },
            _ => None,
        }
    }
}


// ---------------------------------------------------------------------------------------------
// Layout lemmas

/// Whether every instruction of the layout has a positive length.
pub open spec fn sizes_positive(sizes: Seq<u8>) -> bool {
    forall|k: int| 0 <= k < sizes.len() ==> sizes[k] > 0
}

/// Positions in a layout only depend on the lengths before them.
pub proof fn lemma_byte_position_prefix(a: Seq<u8>, b: Seq<u8>, k: int)
    requires
        0 <= k <= a.len(),
    ensures
        byte_position(a + b, k) == byte_position(a, k),
    decreases k,
{
    if k > 0 {
        lemma_byte_position_prefix(a, b, k - 1);
    }
}

/// Positions strictly grow along a layout of positive lengths.
pub proof fn lemma_byte_position_monotone(sizes: Seq<u8>, i: int, j: int)
    requires
        sizes_positive(sizes),
        0 <= i <= j <= sizes.len(),
    ensures
        byte_position(sizes, i) <= byte_position(sizes, j),
        i < j ==> byte_position(sizes, i) < byte_position(sizes, j),
    decreases j - i,
{
    if i < j {
        lemma_byte_position_monotone(sizes, i, j - 1);
    }
}

/// The layout from position `p` continues the layout that ends at `p`.
proof fn lemma_layout_step(code: Seq<u8>, p: int, l: int)
    requires
        0 <= p < code.len(),
        instr_len(code, p) == Some(l),
        l > 0,
    ensures
        layout_from(code, p) == match layout_from(code, p + l) {
            Some(rest) => Some(seq![l as u8] + rest),
            None => None::<Seq<u8>>,
        },
{
}

/// A layout reaching past `p` holds an instruction at `p`.
proof fn lemma_layout_nonempty(code: Seq<u8>, p: int)
    requires
        0 <= p < code.len(),
        layout_from(code, p) is Some,
    ensures
        layout_from(code, p)->0.len() > 0,
        instr_len(code, p) is Some,
        layout_from(code, p)->0[0] == instr_len(code, p)->0,
{
}

/// All lengths in a layout are positive.
pub proof fn lemma_layout_positive(code: Seq<u8>, p: int)
    requires
        layout_from(code, p) is Some,
    ensures
        sizes_positive(layout_from(code, p)->0),
        byte_position(layout_from(code, p)->0, layout_from(code, p)->0.len() as int) + p
            >= code.len(),
    decreases code.len() - p,
{
    if p < code.len() {
        let l = instr_len(code, p)->0;
        lemma_layout_positive(code, p + l);
        let rest = layout_from(code, p + l)->0;
        let all = seq![l as u8] + rest;
        assert(all == layout_from(code, p)->0);
        assert forall|k: int| 0 <= k < all.len() implies all[k] > 0 by {
            if k > 0 {
                assert(all[k] == rest[k - 1]);
            }
        }
        lemma_byte_position_shift(l as u8, rest, rest.len() as int);
    }
}

/// Positions in a layout that starts with an instruction of length `x`.
proof fn lemma_byte_position_shift(x: u8, rest: Seq<u8>, k: int)
    requires
        0 <= k <= rest.len(),
    ensures
        byte_position(seq![x] + rest, k + 1) == x + byte_position(rest, k),
    decreases k,
{
    let all = seq![x] + rest;
    if k > 0 {
        lemma_byte_position_shift(x, rest, k - 1);
        assert(all[k] == rest[k - 1]);
        assert(byte_position(all, k + 1) == byte_position(all, k) + all[k]);
        assert(byte_position(rest, k) == byte_position(rest, k - 1) + rest[k - 1]);
    } else {
        assert(all[0] == x);
        assert(byte_position(all, 1) == byte_position(all, 0) + all[0]);
        assert(byte_position(all, 0) == 0);
        assert(byte_position(rest, 0) == 0);
    }
}

// ---------------------------------------------------------------------------------------------
// Jump conversion

/// Converts a jump distance in bytes into a distance in instructions, starting from
/// instruction `index` of a layout with the given instruction lengths. `None` when the jump
/// does not land on the start of an instruction or the end of the code.
pub fn byte_offset_to_opcode_offset(
    byte_offset: &usize,
    direction: &OffsetDirection,
    index: usize,
    opcode_sizes: &[u8],
) -> (r: Option<usize>)
    requires
        index <= opcode_sizes@.len(),
        sizes_positive(opcode_sizes@),
    ensures
        *direction == OffsetDirection::Forward ==> (r is Some <==> branch_target_exists(
            opcode_sizes@,
            index as int,
            *byte_offset as int,
        )),
        *direction == OffsetDirection::Backward ==> (r is Some <==> branch_target_exists(
            opcode_sizes@,
            index as int,
            -(*byte_offset as int),
        )),
        r matches Some(o) ==> (*direction == OffsetDirection::Forward ==> index + o
            <= opcode_sizes@.len() && byte_position(opcode_sizes@, index + o) == byte_position(
            opcode_sizes@,
            index as int,
        ) + *byte_offset),
        r matches Some(o) ==> (*direction == OffsetDirection::Backward ==> o <= index
            && byte_position(opcode_sizes@, index - o) == byte_position(
            opcode_sizes@,
            index as int,
        ) - *byte_offset),
{
    let ghost sizes = opcode_sizes@;
    let ghost start = byte_position(sizes, index as int);
    let mut remaining = *byte_offset;
    let mut current = index;
    if *direction == OffsetDirection::Forward {
        while remaining > 0
            invariant
                *direction == OffsetDirection::Forward,
                index <= opcode_sizes@.len(),
                index <= current <= sizes.len(),
                sizes == opcode_sizes@,
                sizes_positive(sizes),
                byte_position(sizes, current as int) + remaining == start + *byte_offset,
                start == byte_position(sizes, index as int),
            decreases remaining,
        {
            if current >= opcode_sizes.len() {
                proof {
                    assert forall|j: int| 0 <= j <= sizes.len() implies #[trigger] byte_position(
                        sizes,
                        j,
                    ) != start + *byte_offset by {
                        lemma_byte_position_monotone(sizes, j, sizes.len() as int);
                    }
                    assert(!branch_target_exists(opcode_sizes@, index as int, *byte_offset as int));
                }
                return None;
            }
            let size = opcode_sizes[current] as usize;
            if size > remaining {
                proof {
                    assert(byte_position(sizes, current + 1) == byte_position(sizes, current as int)
                        + sizes[current as int]);
                    assert forall|j: int| 0 <= j <= sizes.len() implies #[trigger] byte_position(
                        sizes,
                        j,
                    ) != start + *byte_offset by {
                        if j <= current {
                            lemma_byte_position_monotone(sizes, j, current as int);
                        } else {
                            lemma_byte_position_monotone(sizes, current + 1, j);
                        }
                    }
                }
                return None;
            }
            remaining = remaining - size;
            current = current + 1;
        }
        assert(byte_position(sizes, current as int) == start + *byte_offset);
        Some(current - index)
    } else {
        while remaining > 0
            invariant
                *direction == OffsetDirection::Backward,
                current <= index <= sizes.len(),
                sizes == opcode_sizes@,
                sizes_positive(sizes),
                byte_position(sizes, current as int) - remaining == start - *byte_offset,
                start == byte_position(sizes, index as int),
            decreases remaining,
        {
            if current == 0 {
                proof {
                    assert forall|j: int| 0 <= j <= sizes.len() implies #[trigger] byte_position(
                        sizes,
                        j,
                    ) != start - *byte_offset by {
                        lemma_byte_position_monotone(sizes, 0, j);
                    }
                }
                return None;
            }
            let size = opcode_sizes[current - 1] as usize;
            if size > remaining {
                proof {
                    assert(byte_position(sizes, current as int) == byte_position(
                        sizes,
                        current - 1,
                    ) + sizes[current - 1]);
                    assert forall|j: int| 0 <= j <= sizes.len() implies #[trigger] byte_position(
                        sizes,
                        j,
                    ) != start - *byte_offset by {
                        if j <= current - 1 {
                            lemma_byte_position_monotone(sizes, j, current - 1);
                        } else {
                            lemma_byte_position_monotone(sizes, current as int, j);
                        }
                    }
                }
                return None;
            }
            current = current - 1;
            remaining = remaining - size;
        }
        assert(byte_position(sizes, current as int) == start - *byte_offset);
        Some(index - current)
    }
}

fn rebranch(op: &OpCode, o: usize) -> (r: Option<OpCode>)
    ensures
        branch_parts(*op) is Some ==> r == Some(with_branch_offset(*op, o)),
        branch_parts(*op) is None ==> r is None,
{
    match op {
        OpCode::IfEq(_, d) => Some(OpCode::IfEq(o, *d)),
        OpCode::IfNe(_, d) => Some(OpCode::IfNe(o, *d)),
        OpCode::IfLt(_, d) => Some(OpCode::IfLt(o, *d)),
        OpCode::IfGe(_, d) => Some(OpCode::IfGe(o, *d)),
        OpCode::IfGt(_, d) => Some(OpCode::IfGt(o, *d)),
        OpCode::IfLe(_, d) => Some(OpCode::IfLe(o, *d)),
        OpCode::IficmpEq(_, d) => Some(OpCode::IficmpEq(o, *d)),
        OpCode::IficmpNe(_, d) => Some(OpCode::IficmpNe(o, *d)),
        OpCode::IficmpLt(_, d) => Some(OpCode::IficmpLt(o, *d)),
        OpCode::IficmpGe(_, d) => Some(OpCode::IficmpGe(o, *d)),
        OpCode::IficmpGt(_, d) => Some(OpCode::IficmpGt(o, *d)),
        OpCode::IficmpLe(_, d) => Some(OpCode::IficmpLe(o, *d)),
        OpCode::IfacmpEq(_, d) => Some(OpCode::IfacmpEq(o, *d)),
        OpCode::IfacmpNe(_, d) => Some(OpCode::IfacmpNe(o, *d)),
        OpCode::Goto(_, d) => Some(OpCode::Goto(o, *d)),
        OpCode::Jsr(_, d) => Some(OpCode::Jsr(o, *d)),
        OpCode::IfNull(_, d) => Some(OpCode::IfNull(o, *d)),
        OpCode::IfNonNull(_, d) => Some(OpCode::IfNonNull(o, *d)),
        _ => None,
    }
}

/// The signed distance in bytes of a jump, given its size and direction.
pub open spec fn signed_distance(o: usize, d: OffsetDirection) -> int {
    if d == OffsetDirection::Forward {
        o as int
    } else {
        -(o as int)
    }
}

/// Whether `new` is the jump `old` (distance in bytes) with the distance counted in
/// instructions, for instruction `k` of the layout `sizes`.
pub open spec fn branch_converted(sizes: Seq<u8>, k: int, old: OpCode, new: OpCode) -> bool {
    match branch_parts(old) {
        Some((bo, d)) => exists|o: usize|
            new == with_branch_offset(old, o) && (d == OffsetDirection::Forward ==> k + o
                <= sizes.len() && byte_position(sizes, k + o) == byte_position(sizes, k) + bo) && (d
                == OffsetDirection::Backward ==> o <= k && byte_position(sizes, k - o)
                == byte_position(sizes, k) - bo),
        None => new == old,
    }
}

fn branch_distance(op: &OpCode) -> (r: Option<(usize, OffsetDirection)>)
    ensures
        r == branch_parts(*op),
{
    match op {
        OpCode::IfEq(o, d) => Some((*o, *d)),
        OpCode::IfNe(o, d) => Some((*o, *d)),
        OpCode::IfLt(o, d) => Some((*o, *d)),
        OpCode::IfGe(o, d) => Some((*o, *d)),
        OpCode::IfGt(o, d) => Some((*o, *d)),
        OpCode::IfLe(o, d) => Some((*o, *d)),
        OpCode::IficmpEq(o, d) => Some((*o, *d)),
        OpCode::IficmpNe(o, d) => Some((*o, *d)),
        OpCode::IficmpLt(o, d) => Some((*o, *d)),
        OpCode::IficmpGe(o, d) => Some((*o, *d)),
        OpCode::IficmpGt(o, d) => Some((*o, *d)),
        OpCode::IficmpLe(o, d) => Some((*o, *d)),
        OpCode::IfacmpEq(o, d) => Some((*o, *d)),
        OpCode::IfacmpNe(o, d) => Some((*o, *d)),
        OpCode::Goto(o, d) => Some((*o, *d)),
        OpCode::Jsr(o, d) => Some((*o, *d)),
        OpCode::IfNull(o, d) => Some((*o, *d)),
        OpCode::IfNonNull(o, d) => Some((*o, *d)),
        _ => None,
    }
}

/// Converts the distances of all jumps from bytes into instructions. Fails when a jump does
/// not land on the start of an instruction or the end of the code.
pub fn parse_branch_offsets(opcodes: &mut Vec<OpCode>, opcode_sizes: &Vec<u8>) -> (r: Result<(), OpcodeError>)
    requires
        old(opcodes)@.len() == opcode_sizes@.len(),
        sizes_positive(opcode_sizes@),
    ensures
        r is Ok <==> forall|k: int|
            0 <= k < old(opcodes)@.len() ==> (#[trigger] branch_parts(old(opcodes)@[k]) matches Some(
                (bo, d),
            ) ==> branch_target_exists(opcode_sizes@, k, signed_distance(bo, d))),
        r is Ok ==> final(opcodes)@.len() == old(opcodes)@.len() && forall|k: int|
            0 <= k < old(opcodes)@.len() ==> #[trigger] branch_converted(
                opcode_sizes@,
                k,
                old(opcodes)@[k],
                final(opcodes)@[k],
            ),
        r matches Err(e) ==> e is InvalidBranchTarget,
{
    let ghost orig = opcodes@;
    let mut i: usize = 0;
    while i < opcodes.len()
        invariant
            orig == old(opcodes)@,
            opcodes@.len() == orig.len(),
            orig.len() == opcode_sizes@.len(),
            sizes_positive(opcode_sizes@),
            i <= orig.len(),
            forall|k: int| i <= k < orig.len() ==> opcodes@[k] == orig[k],
            forall|k: int|
                0 <= k < i ==> #[trigger] branch_converted(opcode_sizes@, k, orig[k], opcodes@[k]),
            forall|k: int|
                0 <= k < i ==> (#[trigger] branch_parts(orig[k]) matches Some((bo, d))
                    ==> branch_target_exists(opcode_sizes@, k, signed_distance(bo, d))),
        decreases orig.len() - i,
    {
        match branch_distance(&opcodes[i]) {
            Some((bo, d)) => {
                match byte_offset_to_opcode_offset(&bo, &d, i, opcode_sizes.as_slice()) {
                    Some(o) => {
                        let new_op = rebranch(&opcodes[i], o);
                        match new_op {
                            Some(n) => {
                                opcodes.set(i, n);
                                assert(branch_converted(opcode_sizes@, i as int, orig[i as int], opcodes@[i as int]));
                            },
                            None => {},
                        }
                    },
                    None => {
                        assert(!branch_target_exists(opcode_sizes@, i as int, signed_distance(bo, d)));
                        assert(branch_parts(old(opcodes)@[i as int]) == Some((bo, d)));
                        return Err(OpcodeError::InvalidBranchTarget);
                    },
                }
            },
            None => {
                assert(branch_converted(opcode_sizes@, i as int, orig[i as int], opcodes@[i as int]));
            },
        }
        i = i + 1;
    }
    Ok(())
}


// ---------------------------------------------------------------------------------------------
// Whole methods

proof fn lemma_branch_op_parts(b: u8, x: usize, o: usize, d: OffsetDirection)
    requires
        is_branch_byte(b),
    ensures
        with_branch_offset(branch_op(b, x, d), o) == branch_op(b, o, d),
        branch_parts(branch_op(b, o, d)) == Some((o, d)),
{
}

proof fn lemma_plain_not_branch(code: Seq<u8>, p: int)
    requires
        plain_op(code, p) is Some,
    ensures
        branch_parts(plain_op(code, p)->0) is None,
{
}

proof fn lemma_cp_op_not_branch(code: Seq<u8>, p: int, cp: Seq<RuntimeCPEntryModel>, op: OpCode)
    requires
        is_cp_byte(code[p]),
        cp_op(code, p, cp, op),
    ensures
        branch_parts(op) is None,
{
}

/// When the layout cannot go on at `p`, the code does not decode.
proof fn lemma_layout_broken(code: Seq<u8>, cp: Seq<RuntimeCPEntryModel>, sizes: Seq<u8>, p: int)
    requires
        0 <= p < code.len(),
        layout_from(code, 0) == match layout_from(code, p) {
            Some(rest) => Some(sizes + rest),
            None => None::<Seq<u8>>,
        },
        layout_from(code, p) is None,
    ensures
        !code_decodes(code, cp),
{
}

/// When instruction `sizes.len()`, at `p`, does not resolve, the code does not decode.
proof fn lemma_instruction_broken(code: Seq<u8>, cp: Seq<RuntimeCPEntryModel>, sizes: Seq<u8>, p: int)
    requires
        0 <= p < code.len(),
        p == byte_position(sizes, sizes.len() as int),
        layout_from(code, 0) == match layout_from(code, p) {
            Some(rest) => Some(sizes + rest),
            None => None::<Seq<u8>>,
        },
        !instruction_resolves(code, p, cp),
    ensures
        !code_decodes(code, cp),
{
    if let Some(rest) = layout_from(code, p) {
        lemma_layout_nonempty(code, p);
        let full = sizes + rest;
        let k = sizes.len() as int;
        lemma_byte_position_prefix(sizes, rest, k);
        assert(byte_position(full, k) == p);
        assert(0 <= k < full.len());
        assert(layout_from(code, 0) == Some(full));
        assert(!instruction_resolves(code, byte_position(full, k), cp));
        if code_decodes(code, cp) {
            let s = layout_from(code, 0)->0;
            assert(s == full);
            assert(0 <= k < s.len());
            assert(instruction_resolves(code, byte_position(s, k), cp));
        }
    }
}

/// Decodes the bytecode of a method with its run-time constant pool into instructions whose
/// jump distances count instructions. Also returns the length in bytes of each instruction.
pub fn parse_opcodes(code: &Vec<u8>, runtime_cp: &Vec<RuntimeCPEntry>) -> (r: Result<(Vec<OpCode>, Vec<u8>), OpcodeError>)
    ensures
        r is Ok <==> code_decodes(code@, runtime_cp_view(runtime_cp@)),
        r matches Ok((ops, sizes)) ==> {
            &&& layout_from(code@, 0) == Some(sizes@)
            &&& ops@.len() == sizes@.len()
            &&& forall|k: int|
                0 <= k < ops@.len() ==> #[trigger] decoded_instruction(
                    code@,
                    sizes@,
                    k,
                    runtime_cp_view(runtime_cp@),
                    ops@[k],
                )
        },
        r matches Err(OpcodeError::Unsupported(b)) ==> is_unsupported(b),
        r matches Err(OpcodeError::InvalidOpcode(b)) ==> b >= 202,
        r matches Err(OpcodeError::UnsupportedWide(b)) ==> wide_len(b) is None,
{
    let ghost cpv = runtime_cp_view(runtime_cp@);
    let c = code.as_slice();
    let mut opcodes: Vec<OpCode> = Vec::new();
    let mut opcode_sizes: Vec<u8> = Vec::new();
    let mut p: usize = 0;
    assert(opcode_sizes@ + layout_from(code@, 0)->0 =~= layout_from(code@, 0)->0);
    while p < c.len()
        invariant
            c@ == code@,
            cpv == runtime_cp_view(runtime_cp@),
            p <= code@.len(),
            p == byte_position(opcode_sizes@, opcode_sizes@.len() as int),
            opcodes@.len() == opcode_sizes@.len(),
            sizes_positive(opcode_sizes@),
            layout_from(code@, 0) == match layout_from(code@, p as int) {
                Some(rest) => Some(opcode_sizes@ + rest),
                None => None,
            },
            forall|k: int|
                0 <= k < opcodes@.len() ==> {
                    &&& instruction_resolves(code@, #[trigger] byte_position(opcode_sizes@, k), cpv)
                    &&& raw_instruction(code@, byte_position(opcode_sizes@, k), cpv, opcodes@[k])
                    &&& (branch_parts(opcodes@[k]) is Some <==> is_branch_byte(
                        code@[byte_position(opcode_sizes@, k)],
                    ))
                    &&& is_branch_byte(code@[byte_position(opcode_sizes@, k)]) ==> branch_parts(
                        opcodes@[k],
                    ) == Some(
                        (
                            split_offset(
                                branch_byte_offset(code@, byte_position(opcode_sizes@, k)),
                            ).0 as usize,
                            split_offset(
                                branch_byte_offset(code@, byte_position(opcode_sizes@, k)),
                            ).1,
                        ),
                    )
                },
        decreases code@.len() - p,
    {
        let l = match instruction_length(c, p) {
            Ok(l) => l,
            Err(e) => {
                proof {
                    lemma_layout_broken(code@, cpv, opcode_sizes@, p as int);
                }
                return Err(e);
            },
        };
        proof {
            lemma_layout_step(code@, p as int, l as int);
        }
        let b = c[p];
        let decoded = if is_branch_opcode(b) {
            decode_branch(c, p)
        } else if is_cp_opcode(b) {
            decode_cp_instruction(c, p, runtime_cp)
        } else {
            decode_plain(c, p)
        };
        let op = match decoded {
            Some(op) => op,
            None => {
                proof {
                    lemma_instruction_broken(code@, cpv, opcode_sizes@, p as int);
                }
                if is_branch_opcode(b) {
                    return Err(OpcodeError::InvalidBranchTarget);
                }
                return Err(OpcodeError::UnresolvedConstant);
            },
        };
        proof {
            if is_branch_byte(b) {
                let (o, d) = split_offset(branch_byte_offset(code@, p as int));
                lemma_branch_op_parts(b, o as usize, o as usize, d);
            } else if is_cp_byte(b) {
                lemma_cp_op_not_branch(code@, p as int, cpv, op);
            } else {
                lemma_plain_not_branch(code@, p as int);
            }
        }
        let ghost old_sizes = opcode_sizes@;
        let ghost old_ops = opcodes@;
        opcodes.push(op);
        opcode_sizes.push(l);
        proof {
            let rest = layout_from(code@, p + l)->0;
            assert forall|k: int| 0 <= k <= old_sizes.len() implies byte_position(opcode_sizes@, k)
                == byte_position(old_sizes, k) by {
                assert(opcode_sizes@ == old_sizes + seq![l]);
                lemma_byte_position_prefix(old_sizes, seq![l], k);
            }
            assert(byte_position(opcode_sizes@, opcode_sizes@.len() as int) == p + l);
            if layout_from(code@, p + l) is Some {
                assert(old_sizes + (seq![l as u8] + rest) =~= opcode_sizes@ + rest);
            }
            assert forall|k: int| 0 <= k < opcode_sizes@.len() implies opcode_sizes@[k] > 0 by {
                if k < old_sizes.len() {
                    assert(opcode_sizes@[k] == old_sizes[k]);
                }
            }
            assert forall|k: int| 0 <= k < opcodes@.len() implies {
                &&& instruction_resolves(code@, #[trigger] byte_position(opcode_sizes@, k), cpv)
                &&& raw_instruction(code@, byte_position(opcode_sizes@, k), cpv, opcodes@[k])
                &&& (branch_parts(opcodes@[k]) is Some <==> is_branch_byte(
                    code@[byte_position(opcode_sizes@, k)],
                ))
                &&& is_branch_byte(code@[byte_position(opcode_sizes@, k)]) ==> branch_parts(
                    opcodes@[k],
                ) == Some(
                    (
                        split_offset(
                            branch_byte_offset(code@, byte_position(opcode_sizes@, k)),
                        ).0 as usize,
                        split_offset(branch_byte_offset(code@, byte_position(opcode_sizes@, k))).1,
                    ),
                )
            } by {
                if k < old_ops.len() {
                    assert(byte_position(opcode_sizes@, k) == byte_position(old_sizes, k));
                    assert(opcodes@[k] == old_ops[k]);
                } else {
                    assert(byte_position(opcode_sizes@, k) == p);
                }
            }
        }
        p = p + l as usize;
    }
    assert(layout_from(code@, p as int) == Some(Seq::<u8>::empty()));
    assert(opcode_sizes@ + Seq::<u8>::empty() =~= opcode_sizes@);
    let ghost raw_ops = opcodes@;
    let ghost sizes = opcode_sizes@;
    match parse_branch_offsets(&mut opcodes, &opcode_sizes) {
        Ok(()) => {
            proof {
                assert forall|k: int| 0 <= k < opcodes@.len() implies #[trigger] decoded_instruction(
                    code@,
                    sizes,
                    k,
                    cpv,
                    opcodes@[k],
                ) by {
                    assert(branch_converted(sizes, k, raw_ops[k], opcodes@[k]));
                    let pk = byte_position(sizes, k);
                    assert(instruction_resolves(code@, pk, cpv));
                    if is_branch_byte(code@[pk]) {
                        let off = branch_byte_offset(code@, pk);
                        let (bo, d) = split_offset(off);
                        let o = choose|o: usize|
                            opcodes@[k] == with_branch_offset(raw_ops[k], o) && (d
                                == OffsetDirection::Forward ==> k + o <= sizes.len()
                                && byte_position(sizes, k + o) == byte_position(sizes, k) + bo
                                as usize) && (d == OffsetDirection::Backward ==> o <= k
                                && byte_position(sizes, k - o) == byte_position(sizes, k) - bo
                                as usize);
                        lemma_branch_op_parts(code@[pk], bo as usize, o, d);
                    }
                }
                assert forall|k: int| 0 <= k < sizes.len() implies {
                    &&& instruction_resolves(code@, #[trigger] byte_position(sizes, k), cpv)
                    &&& is_branch_byte(code@[byte_position(sizes, k)]) ==> branch_target_exists(
                        sizes,
                        k,
                        branch_byte_offset(code@, byte_position(sizes, k)),
                    )
                } by {
                    assert(branch_parts(raw_ops[k]) matches Some((bo, d)) ==> branch_target_exists(
                        sizes,
                        k,
                        signed_distance(bo, d),
                    ));
                }
            }
            Ok((opcodes, opcode_sizes))
        },
        Err(e) => {
            proof {
                let k = choose|k: int|
                    0 <= k < raw_ops.len() && !(#[trigger] branch_parts(raw_ops[k]) matches Some((bo, d))
                        ==> branch_target_exists(sizes, k, signed_distance(bo, d)));
                assert(instruction_resolves(code@, byte_position(sizes, k), cpv));
            }
            Err(e)
        },
    }
}

fn is_branch_opcode(b: u8) -> (r: bool)
    ensures
        r == is_branch_byte(b),
{
    (153 <= b && b <= 168) || (198 <= b && b <= 201)
}

fn is_cp_opcode(b: u8) -> (r: bool)
    ensures
        r == is_cp_byte(b),
{
    b == 18 || b == 19 || b == 20 || b == 178 || b == 179 || b == 182 || b == 183 || b == 184
        || b == 189 || b == 197
}

} // verus!
