use vstd::prelude::*;
use crate::classfile::{
    CpInfo, MethodInfo, AttributeInfo, ExceptionTableEntry, ACC_NATIVE, utf8_at, get_utf8_string,
    copy_pool,
};
use crate::field::fq_key;
use crate::text::join3;

verus! {

/// An instruction decoded from bytecode, with its operands.
#[derive(Debug)]
pub enum Instruction {
    Aaload,
    Aastore,
    Aconst_null,
    Aload_0,
    Aload_1,
    Aload_2,
    Aload_3,
    Areturn,
    Arraylength,
    Astore_0,
    Astore_1,
    Astore_2,
    Astore_3,
    Athrow,
    Baload,
    Bastore,
    Caload,
    Castore,
    D2f,
    D2i,
    D2l,
    Dadd,
    Daload,
    Dastore,
    Dcmpg,
    Dcmpl,
    Dconst_0,
    Dconst_1,
    Ddiv,
    Dload_0,
    Dload_1,
    Dload_2,
    Dload_3,
    Dmul,
    Dneg,
    Drem,
    Dreturn,
    Dstore_0,
    Dstore_1,
    Dstore_2,
    Dstore_3,
    Dsub,
    Dup,
    Dup2,
    Dup2_x1,
    Dup2_x2,
    Dup_x1,
    Dup_x2,
    F2d,
    F2i,
    F2l,
    Fadd,
    Faload,
    Fastore,
    Fcmpg,
    Fcmpl,
    Fconst_0,
    Fconst_1,
    Fconst_2,
    Fdiv,
    Fload_0,
    Fload_1,
    Fload_2,
    Fload_3,
    Fmul,
    Fneg,
    Frem,
    Freturn,
    Fstore_0,
    Fstore_1,
    Fstore_2,
    Fstore_3,
    Fsub,
    I2b,
    I2c,
    I2d,
    I2f,
    I2l,
    I2s,
    Iadd,
    Iaload,
    Iand,
    Iastore,
    Iconst_0,
    Iconst_1,
    Iconst_2,
    Iconst_3,
    Iconst_4,
    Iconst_5,
    Iconst_m1,
    Idiv,
    Iload_0,
    Iload_1,
    Iload_2,
    Iload_3,
    Imul,
    Ineg,
    Ior,
    Irem,
    Ireturn,
    Ishl,
    Ishr,
    Istore_0,
    Istore_1,
    Istore_2,
    Istore_3,
    Isub,
    Iushr,
    Ixor,
    L2d,
    L2f,
    L2i,
    Ladd,
    Laload,
    Land,
    Lastore,
    Lcmp,
    Lconst_0,
    Lconst_1,
    Ldiv,
    Lload_0,
    Lload_1,
    Lload_2,
    Lload_3,
    Lor,
    Lushr,
    Lxor,
    Monitorenter,
    Monitorexit,
    Nop,
    Pop,
    Pop2,
    Return,
    Saload,
    Sastore,
    Swap,
    Wide,
    Aload(u8),
    Astore(u8),
    Bipush(u8),
    Dload(u8),
    Dstore(u8),
    Fload(u8),
    Fstore(u8),
    Iload(u8),
    Istore(u8),
    Ldc(u8),
    Lload(u8),
    Newarray(u8),
    Ret(u8),
    Anewarray(u16),
    Checkcast(u16),
    Getfield(u16),
    Getstatic(u16),
    Goto(u16),
    If_acmpeq(u16),
    If_acmpne(u16),
    If_icmpeq(u16),
    If_icmpge(u16),
    If_icmpgt(u16),
    If_icmple(u16),
    If_icmplt(u16),
    If_icmpne(u16),
    Ifeq(u16),
    Ifge(u16),
    Ifgt(u16),
    Ifle(u16),
    Iflt(u16),
    Ifne(u16),
    Ifnonnull(u16),
    Ifnull(u16),
    Instanceof(u16),
    Invokespecial(u16),
    Invokestatic(u16),
    Invokevirtual(u16),
    Jsr(u16),
    Ldc2_w(u16),
    Ldc_w(u16),
    New(u16),
    Putfield(u16),
    Putstatic(u16),
    Sipush(u16),
    Goto_w(u32),
    Jsr_w(u32),
    Iinc(u8, i8),
    Invokedynamic(u16),
    Invokeinterface(u16, u8),
    Multianewarray(u16, u8),
    Lookupswitch(u32, u32, Vec<(u32, i32)>),
    Tableswitch(u32, u32, u32, Vec<i32>),
}

/// The instruction that opcode `op` stands for.
pub open spec fn op_no_operand(op: u8) -> Option<Instruction> {
    match op {
        0x32u8 => Some(Instruction::Aaload),
        0x53u8 => Some(Instruction::Aastore),
        0x1u8 => Some(Instruction::Aconst_null),
        0x2au8 => Some(Instruction::Aload_0),
        0x2bu8 => Some(Instruction::Aload_1),
        0x2cu8 => Some(Instruction::Aload_2),
        0x2du8 => Some(Instruction::Aload_3),
        0xb0u8 => Some(Instruction::Areturn),
        0xbeu8 => Some(Instruction::Arraylength),
        0x4bu8 => Some(Instruction::Astore_0),
        0x4cu8 => Some(Instruction::Astore_1),
        0x4du8 => Some(Instruction::Astore_2),
        0x4eu8 => Some(Instruction::Astore_3),
        0xbfu8 => Some(Instruction::Athrow),
        0x33u8 => Some(Instruction::Baload),
        0x54u8 => Some(Instruction::Bastore),
        0x34u8 => Some(Instruction::Caload),
        0x55u8 => Some(Instruction::Castore),
        0x90u8 => Some(Instruction::D2f),
        0x8eu8 => Some(Instruction::D2i),
        0x8fu8 => Some(Instruction::D2l),
        0x63u8 => Some(Instruction::Dadd),
        0x31u8 => Some(Instruction::Daload),
        0x52u8 => Some(Instruction::Dastore),
        0x98u8 => Some(Instruction::Dcmpg),
        0x97u8 => Some(Instruction::Dcmpl),
        0xeu8 => Some(Instruction::Dconst_0),
        0xfu8 => Some(Instruction::Dconst_1),
        0x6fu8 => Some(Instruction::Ddiv),
        0x26u8 => Some(Instruction::Dload_0),
        0x27u8 => Some(Instruction::Dload_1),
        0x28u8 => Some(Instruction::Dload_2),
        0x29u8 => Some(Instruction::Dload_3),
        0x6bu8 => Some(Instruction::Dmul),
        0x77u8 => Some(Instruction::Dneg),
        0x73u8 => Some(Instruction::Drem),
        0xafu8 => Some(Instruction::Dreturn),
        0x47u8 => Some(Instruction::Dstore_0),
        0x48u8 => Some(Instruction::Dstore_1),
        0x49u8 => Some(Instruction::Dstore_2),
        0x4au8 => Some(Instruction::Dstore_3),
        0x67u8 => Some(Instruction::Dsub),
        0x59u8 => Some(Instruction::Dup),
        0x5au8 => Some(Instruction::Dup_x1),
        0x5bu8 => Some(Instruction::Dup_x2),
        0x5cu8 => Some(Instruction::Dup2),
        0x5du8 => Some(Instruction::Dup2_x1),
        0x5eu8 => Some(Instruction::Dup2_x2),
        0x8du8 => Some(Instruction::F2d),
        0x8bu8 => Some(Instruction::F2i),
        0x8cu8 => Some(Instruction::F2l),
        0x62u8 => Some(Instruction::Fadd),
        0x30u8 => Some(Instruction::Faload),
        0x51u8 => Some(Instruction::Fastore),
        0x96u8 => Some(Instruction::Fcmpg),
        0x95u8 => Some(Instruction::Fcmpl),
        0xbu8 => Some(Instruction::Fconst_0),
        0xcu8 => Some(Instruction::Fconst_1),
        0xdu8 => Some(Instruction::Fconst_2),
        0x6eu8 => Some(Instruction::Fdiv),
        0x22u8 => Some(Instruction::Fload_0),
        0x23u8 => Some(Instruction::Fload_1),
        0x24u8 => Some(Instruction::Fload_2),
        0x25u8 => Some(Instruction::Fload_3),
        0x6au8 => Some(Instruction::Fmul),
        0x76u8 => Some(Instruction::Fneg),
        0x72u8 => Some(Instruction::Frem),
        0xaeu8 => Some(Instruction::Freturn),
        0x43u8 => Some(Instruction::Fstore_0),
        0x44u8 => Some(Instruction::Fstore_1),
        0x45u8 => Some(Instruction::Fstore_2),
        0x46u8 => Some(Instruction::Fstore_3),
        0x66u8 => Some(Instruction::Fsub),
        0x91u8 => Some(Instruction::I2b),
        0x92u8 => Some(Instruction::I2c),
        0x87u8 => Some(Instruction::I2d),
        0x86u8 => Some(Instruction::I2f),
        0x85u8 => Some(Instruction::I2l),
        0x93u8 => Some(Instruction::I2s),
        0x60u8 => Some(Instruction::Iadd),
        0x2eu8 => Some(Instruction::Iaload),
        0x7eu8 => Some(Instruction::Iand),
        0x4fu8 => Some(Instruction::Iastore),
        0x2u8 => Some(Instruction::Iconst_m1),
        0x3u8 => Some(Instruction::Iconst_0),
        0x4u8 => Some(Instruction::Iconst_1),
        0x5u8 => Some(Instruction::Iconst_2),
        0x6u8 => Some(Instruction::Iconst_3),
        0x7u8 => Some(Instruction::Iconst_4),
        0x8u8 => Some(Instruction::Iconst_5),
        0x6cu8 => Some(Instruction::Idiv),
        0x1au8 => Some(Instruction::Iload_0),
        0x1bu8 => Some(Instruction::Iload_1),
        0x1cu8 => Some(Instruction::Iload_2),
        0x1du8 => Some(Instruction::Iload_3),
        0x68u8 => Some(Instruction::Imul),
        0x74u8 => Some(Instruction::Ineg),
        0x80u8 => Some(Instruction::Ior),
        0x70u8 => Some(Instruction::Irem),
        0xacu8 => Some(Instruction::Ireturn),
        0x78u8 => Some(Instruction::Ishl),
        0x7au8 => Some(Instruction::Ishr),
        0x3bu8 => Some(Instruction::Istore_0),
        0x3cu8 => Some(Instruction::Istore_1),
        0x3du8 => Some(Instruction::Istore_2),
        0x3eu8 => Some(Instruction::Istore_3),
        0x64u8 => Some(Instruction::Isub),
        0x7cu8 => Some(Instruction::Iushr),
        0x82u8 => Some(Instruction::Ixor),
        0x8au8 => Some(Instruction::L2d),
        0x89u8 => Some(Instruction::L2f),
        0x88u8 => Some(Instruction::L2i),
        0x61u8 => Some(Instruction::Ladd),
        0x2fu8 => Some(Instruction::Laload),
        0x7fu8 => Some(Instruction::Land),
        0x50u8 => Some(Instruction::Lastore),
        0x94u8 => Some(Instruction::Lcmp),
        0x9u8 => Some(Instruction::Lconst_0),
        0xau8 => Some(Instruction::Lconst_1),
        0x6du8 => Some(Instruction::Ldiv),
        0x1eu8 => Some(Instruction::Lload_0),
        0x1fu8 => Some(Instruction::Lload_1),
        0x20u8 => Some(Instruction::Lload_2),
        0x21u8 => Some(Instruction::Lload_3),
        0x69u8 => Some(Instruction::Imul),
        0x75u8 => Some(Instruction::Ineg),
        0x81u8 => Some(Instruction::Lor),
        0x71u8 => Some(Instruction::Irem),
        0xadu8 => Some(Instruction::Ireturn),
        0x79u8 => Some(Instruction::Ishl),
        0x7bu8 => Some(Instruction::Ishr),
        0x3fu8 => Some(Instruction::Istore_0),
        0x40u8 => Some(Instruction::Istore_1),
        0x41u8 => Some(Instruction::Istore_2),
        0x42u8 => Some(Instruction::Istore_3),
        0x65u8 => Some(Instruction::Isub),
        0x7du8 => Some(Instruction::Lushr),
        0x83u8 => Some(Instruction::Lxor),
        0xc2u8 => Some(Instruction::Monitorenter),
        0xc3u8 => Some(Instruction::Monitorexit),
        0x0u8 => Some(Instruction::Nop),
        0x57u8 => Some(Instruction::Pop),
        0x58u8 => Some(Instruction::Pop2),
        0xb1u8 => Some(Instruction::Return),
        0x35u8 => Some(Instruction::Saload),
        0x56u8 => Some(Instruction::Sastore),
        0x5fu8 => Some(Instruction::Swap),
        0xc4u8 => Some(Instruction::Wide),
        _ => None,
    }
}

/// The instruction that opcode `op` stands for when its operand is `b`.
pub open spec fn op_u1_operand(op: u8, b: u8) -> Option<Instruction> {
    match op {
        0x19u8 => Some(Instruction::Aload(b)),
        0x3au8 => Some(Instruction::Astore(b)),
        0x10u8 => Some(Instruction::Bipush(b)),
        0x18u8 => Some(Instruction::Dload(b)),
        0x39u8 => Some(Instruction::Dstore(b)),
        0x17u8 => Some(Instruction::Fload(b)),
        0x38u8 => Some(Instruction::Fstore(b)),
        0x15u8 => Some(Instruction::Iload(b)),
        0x36u8 => Some(Instruction::Istore(b)),
        0x12u8 => Some(Instruction::Ldc(b)),
        0x16u8 => Some(Instruction::Lload(b)),
        0x37u8 => Some(Instruction::Istore(b)),
        0xbcu8 => Some(Instruction::Newarray(b)),
        0xa9u8 => Some(Instruction::Ret(b)),
        _ => None,
    }
}

/// The instruction that opcode `op` stands for when its operand is `v`.
pub open spec fn op_u2_operand(op: u8, v: u16) -> Option<Instruction> {
    match op {
        0xbdu8 => Some(Instruction::Anewarray(v)),
        0xc0u8 => Some(Instruction::Checkcast(v)),
        0xb4u8 => Some(Instruction::Getfield(v)),
        0xb2u8 => Some(Instruction::Getstatic(v)),
        0xa7u8 => Some(Instruction::Goto(v)),
        0xa5u8 => Some(Instruction::If_acmpeq(v)),
        0xa6u8 => Some(Instruction::If_acmpne(v)),
        0x9fu8 => Some(Instruction::If_icmpeq(v)),
        0xa0u8 => Some(Instruction::If_icmpne(v)),
        0xa1u8 => Some(Instruction::If_icmplt(v)),
        0xa2u8 => Some(Instruction::If_icmpge(v)),
        0xa3u8 => Some(Instruction::If_icmpgt(v)),
        0xa4u8 => Some(Instruction::If_icmple(v)),
        0x99u8 => Some(Instruction::Ifeq(v)),
        0x9au8 => Some(Instruction::Ifne(v)),
        0x9bu8 => Some(Instruction::Iflt(v)),
        0x9cu8 => Some(Instruction::Ifge(v)),
        0x9du8 => Some(Instruction::Ifgt(v)),
        0x9eu8 => Some(Instruction::Ifle(v)),
        0xc7u8 => Some(Instruction::Ifnonnull(v)),
        0xc6u8 => Some(Instruction::Ifnull(v)),
        0xc1u8 => Some(Instruction::Instanceof(v)),
        0xb7u8 => Some(Instruction::Invokespecial(v)),
        0xb8u8 => Some(Instruction::Invokestatic(v)),
        0xb6u8 => Some(Instruction::Invokevirtual(v)),
        0xa8u8 => Some(Instruction::Jsr(v)),
        0x13u8 => Some(Instruction::Ldc_w(v)),
        0x14u8 => Some(Instruction::Ldc2_w(v)),
        0xbbu8 => Some(Instruction::New(v)),
        0xb5u8 => Some(Instruction::Putfield(v)),
        0xb3u8 => Some(Instruction::Putstatic(v)),
        0x11u8 => Some(Instruction::Sipush(v)),
        _ => None,
    }
}

/// The instruction that opcode `op` stands for when its operand is `v`.
pub open spec fn op_u4_operand(op: u8, v: u32) -> Option<Instruction> {
    match op {
        0xc8u8 => Some(Instruction::Goto_w(v)),
        0xc9u8 => Some(Instruction::Jsr_w(v)),
        _ => None,
    }
}

fn op_no_operand_exec(op: u8) -> (r: Option<Instruction>)
    ensures
        r == op_no_operand(op),
{
    match op {
        0x32u8 => Some(Instruction::Aaload),
        0x53u8 => Some(Instruction::Aastore),
        0x1u8 => Some(Instruction::Aconst_null),
        0x2au8 => Some(Instruction::Aload_0),
        0x2bu8 => Some(Instruction::Aload_1),
        0x2cu8 => Some(Instruction::Aload_2),
        0x2du8 => Some(Instruction::Aload_3),
        0xb0u8 => Some(Instruction::Areturn),
        0xbeu8 => Some(Instruction::Arraylength),
        0x4bu8 => Some(Instruction::Astore_0),
        0x4cu8 => Some(Instruction::Astore_1),
        0x4du8 => Some(Instruction::Astore_2),
        0x4eu8 => Some(Instruction::Astore_3),
        0xbfu8 => Some(Instruction::Athrow),
        0x33u8 => Some(Instruction::Baload),
        0x54u8 => Some(Instruction::Bastore),
        0x34u8 => Some(Instruction::Caload),
        0x55u8 => Some(Instruction::Castore),
        0x90u8 => Some(Instruction::D2f),
        0x8eu8 => Some(Instruction::D2i),
        0x8fu8 => Some(Instruction::D2l),
        0x63u8 => Some(Instruction::Dadd),
        0x31u8 => Some(Instruction::Daload),
        0x52u8 => Some(Instruction::Dastore),
        0x98u8 => Some(Instruction::Dcmpg),
        0x97u8 => Some(Instruction::Dcmpl),
        0xeu8 => Some(Instruction::Dconst_0),
        0xfu8 => Some(Instruction::Dconst_1),
        0x6fu8 => Some(Instruction::Ddiv),
        0x26u8 => Some(Instruction::Dload_0),
        0x27u8 => Some(Instruction::Dload_1),
        0x28u8 => Some(Instruction::Dload_2),
        0x29u8 => Some(Instruction::Dload_3),
        0x6bu8 => Some(Instruction::Dmul),
        0x77u8 => Some(Instruction::Dneg),
        0x73u8 => Some(Instruction::Drem),
        0xafu8 => Some(Instruction::Dreturn),
        0x47u8 => Some(Instruction::Dstore_0),
        0x48u8 => Some(Instruction::Dstore_1),
        0x49u8 => Some(Instruction::Dstore_2),
        0x4au8 => Some(Instruction::Dstore_3),
        0x67u8 => Some(Instruction::Dsub),
        0x59u8 => Some(Instruction::Dup),
        0x5au8 => Some(Instruction::Dup_x1),
        0x5bu8 => Some(Instruction::Dup_x2),
        0x5cu8 => Some(Instruction::Dup2),
        0x5du8 => Some(Instruction::Dup2_x1),
        0x5eu8 => Some(Instruction::Dup2_x2),
        0x8du8 => Some(Instruction::F2d),
        0x8bu8 => Some(Instruction::F2i),
        0x8cu8 => Some(Instruction::F2l),
        0x62u8 => Some(Instruction::Fadd),
        0x30u8 => Some(Instruction::Faload),
        0x51u8 => Some(Instruction::Fastore),
        0x96u8 => Some(Instruction::Fcmpg),
        0x95u8 => Some(Instruction::Fcmpl),
        0xbu8 => Some(Instruction::Fconst_0),
        0xcu8 => Some(Instruction::Fconst_1),
        0xdu8 => Some(Instruction::Fconst_2),
        0x6eu8 => Some(Instruction::Fdiv),
        0x22u8 => Some(Instruction::Fload_0),
        0x23u8 => Some(Instruction::Fload_1),
        0x24u8 => Some(Instruction::Fload_2),
        0x25u8 => Some(Instruction::Fload_3),
        0x6au8 => Some(Instruction::Fmul),
        0x76u8 => Some(Instruction::Fneg),
        0x72u8 => Some(Instruction::Frem),
        0xaeu8 => Some(Instruction::Freturn),
        0x43u8 => Some(Instruction::Fstore_0),
        0x44u8 => Some(Instruction::Fstore_1),
        0x45u8 => Some(Instruction::Fstore_2),
        0x46u8 => Some(Instruction::Fstore_3),
        0x66u8 => Some(Instruction::Fsub),
        0x91u8 => Some(Instruction::I2b),
        0x92u8 => Some(Instruction::I2c),
        0x87u8 => Some(Instruction::I2d),
        0x86u8 => Some(Instruction::I2f),
        0x85u8 => Some(Instruction::I2l),
        0x93u8 => Some(Instruction::I2s),
        0x60u8 => Some(Instruction::Iadd),
        0x2eu8 => Some(Instruction::Iaload),
        0x7eu8 => Some(Instruction::Iand),
        0x4fu8 => Some(Instruction::Iastore),
        0x2u8 => Some(Instruction::Iconst_m1),
        0x3u8 => Some(Instruction::Iconst_0),
        0x4u8 => Some(Instruction::Iconst_1),
        0x5u8 => Some(Instruction::Iconst_2),
        0x6u8 => Some(Instruction::Iconst_3),
        0x7u8 => Some(Instruction::Iconst_4),
        0x8u8 => Some(Instruction::Iconst_5),
        0x6cu8 => Some(Instruction::Idiv),
        0x1au8 => Some(Instruction::Iload_0),
        0x1bu8 => Some(Instruction::Iload_1),
        0x1cu8 => Some(Instruction::Iload_2),
        0x1du8 => Some(Instruction::Iload_3),
        0x68u8 => Some(Instruction::Imul),
        0x74u8 => Some(Instruction::Ineg),
        0x80u8 => Some(Instruction::Ior),
        0x70u8 => Some(Instruction::Irem),
        0xacu8 => Some(Instruction::Ireturn),
        0x78u8 => Some(Instruction::Ishl),
        0x7au8 => Some(Instruction::Ishr),
        0x3bu8 => Some(Instruction::Istore_0),
        0x3cu8 => Some(Instruction::Istore_1),
        0x3du8 => Some(Instruction::Istore_2),
        0x3eu8 => Some(Instruction::Istore_3),
        0x64u8 => Some(Instruction::Isub),
        0x7cu8 => Some(Instruction::Iushr),
        0x82u8 => Some(Instruction::Ixor),
        0x8au8 => Some(Instruction::L2d),
        0x89u8 => Some(Instruction::L2f),
        0x88u8 => Some(Instruction::L2i),
        0x61u8 => Some(Instruction::Ladd),
        0x2fu8 => Some(Instruction::Laload),
        0x7fu8 => Some(Instruction::Land),
        0x50u8 => Some(Instruction::Lastore),
        0x94u8 => Some(Instruction::Lcmp),
        0x9u8 => Some(Instruction::Lconst_0),
        0xau8 => Some(Instruction::Lconst_1),
        0x6du8 => Some(Instruction::Ldiv),
        0x1eu8 => Some(Instruction::Lload_0),
        0x1fu8 => Some(Instruction::Lload_1),
        0x20u8 => Some(Instruction::Lload_2),
        0x21u8 => Some(Instruction::Lload_3),
        0x69u8 => Some(Instruction::Imul),
        0x75u8 => Some(Instruction::Ineg),
        0x81u8 => Some(Instruction::Lor),
        0x71u8 => Some(Instruction::Irem),
        0xadu8 => Some(Instruction::Ireturn),
        0x79u8 => Some(Instruction::Ishl),
        0x7bu8 => Some(Instruction::Ishr),
        0x3fu8 => Some(Instruction::Istore_0),
        0x40u8 => Some(Instruction::Istore_1),
        0x41u8 => Some(Instruction::Istore_2),
        0x42u8 => Some(Instruction::Istore_3),
        0x65u8 => Some(Instruction::Isub),
        0x7du8 => Some(Instruction::Lushr),
        0x83u8 => Some(Instruction::Lxor),
        0xc2u8 => Some(Instruction::Monitorenter),
        0xc3u8 => Some(Instruction::Monitorexit),
        0x0u8 => Some(Instruction::Nop),
        0x57u8 => Some(Instruction::Pop),
        0x58u8 => Some(Instruction::Pop2),
        0xb1u8 => Some(Instruction::Return),
        0x35u8 => Some(Instruction::Saload),
        0x56u8 => Some(Instruction::Sastore),
        0x5fu8 => Some(Instruction::Swap),
        0xc4u8 => Some(Instruction::Wide),
        _ => None,
    }
}

fn op_u1_operand_exec(op: u8, b: u8) -> (r: Option<Instruction>)
    ensures
        r == op_u1_operand(op, b),
{
    match op {
        0x19u8 => Some(Instruction::Aload(b)),
        0x3au8 => Some(Instruction::Astore(b)),
        0x10u8 => Some(Instruction::Bipush(b)),
        0x18u8 => Some(Instruction::Dload(b)),
        0x39u8 => Some(Instruction::Dstore(b)),
        0x17u8 => Some(Instruction::Fload(b)),
        0x38u8 => Some(Instruction::Fstore(b)),
        0x15u8 => Some(Instruction::Iload(b)),
        0x36u8 => Some(Instruction::Istore(b)),
        0x12u8 => Some(Instruction::Ldc(b)),
        0x16u8 => Some(Instruction::Lload(b)),
        0x37u8 => Some(Instruction::Istore(b)),
        0xbcu8 => Some(Instruction::Newarray(b)),
        0xa9u8 => Some(Instruction::Ret(b)),
        _ => None,
    }
}

fn op_u2_operand_exec(op: u8, v: u16) -> (r: Option<Instruction>)
    ensures
        r == op_u2_operand(op, v),
{
    match op {
        0xbdu8 => Some(Instruction::Anewarray(v)),
        0xc0u8 => Some(Instruction::Checkcast(v)),
        0xb4u8 => Some(Instruction::Getfield(v)),
        0xb2u8 => Some(Instruction::Getstatic(v)),
        0xa7u8 => Some(Instruction::Goto(v)),
        0xa5u8 => Some(Instruction::If_acmpeq(v)),
        0xa6u8 => Some(Instruction::If_acmpne(v)),
        0x9fu8 => Some(Instruction::If_icmpeq(v)),
        0xa0u8 => Some(Instruction::If_icmpne(v)),
        0xa1u8 => Some(Instruction::If_icmplt(v)),
        0xa2u8 => Some(Instruction::If_icmpge(v)),
        0xa3u8 => Some(Instruction::If_icmpgt(v)),
        0xa4u8 => Some(Instruction::If_icmple(v)),
        0x99u8 => Some(Instruction::Ifeq(v)),
        0x9au8 => Some(Instruction::Ifne(v)),
        0x9bu8 => Some(Instruction::Iflt(v)),
        0x9cu8 => Some(Instruction::Ifge(v)),
        0x9du8 => Some(Instruction::Ifgt(v)),
        0x9eu8 => Some(Instruction::Ifle(v)),
        0xc7u8 => Some(Instruction::Ifnonnull(v)),
        0xc6u8 => Some(Instruction::Ifnull(v)),
        0xc1u8 => Some(Instruction::Instanceof(v)),
        0xb7u8 => Some(Instruction::Invokespecial(v)),
        0xb8u8 => Some(Instruction::Invokestatic(v)),
        0xb6u8 => Some(Instruction::Invokevirtual(v)),
        0xa8u8 => Some(Instruction::Jsr(v)),
        0x13u8 => Some(Instruction::Ldc_w(v)),
        0x14u8 => Some(Instruction::Ldc2_w(v)),
        0xbbu8 => Some(Instruction::New(v)),
        0xb5u8 => Some(Instruction::Putfield(v)),
        0xb3u8 => Some(Instruction::Putstatic(v)),
        0x11u8 => Some(Instruction::Sipush(v)),
        _ => None,
    }
}

fn op_u4_operand_exec(op: u8, v: u32) -> (r: Option<Instruction>)
    ensures
        r == op_u4_operand(op, v),
{
    match op {
        0xc8u8 => Some(Instruction::Goto_w(v)),
        0xc9u8 => Some(Instruction::Jsr_w(v)),
        _ => None,
    }
}

/// Big-endian 16-bit value at `i`.
pub open spec fn u2_at(code: Seq<u8>, i: int) -> u16 {
    ((code[i] as u16) << 8u16) | (code[i + 1] as u16)
}

/// Big-endian 32-bit value at `i`.
pub open spec fn u4_at(code: Seq<u8>, i: int) -> u32 {
    ((code[i] as u32) << 24u32) | ((code[i + 1] as u32) << 16u32) | ((code[i + 2] as u32) << 8u32)
        | (code[i + 3] as u32)
}

/// What decoding the bytes at a position gives.
pub ghost enum Decoded {
    /// An instruction without a jump table, and the position after it.
    Simple(Instruction, int),
    /// `lookupswitch`: default offset, number of pairs, the pairs, the position after it.
    Lookup(u32, u32, Seq<(u32, i32)>, int),
    /// `tableswitch`: default offset, low, high, the offsets, the position after it.
    Table(u32, u32, u32, Seq<i32>, int),
    /// A byte that is no known opcode.
    Unknown,
    /// An instruction whose operands run past the end of the code, or a
    /// `tableswitch` whose bounds give no table size.
    Truncated,
}

/// The pairs of a `lookupswitch` whose table starts at `q`.
pub open spec fn lookup_pairs(code: Seq<u8>, q: int, npairs: nat) -> Seq<(u32, i32)> {
    Seq::new(npairs, |k: int| (u4_at(code, q + 8 * k), u4_at(code, q + 8 * k + 4) as i32))
}

/// The offsets of a `tableswitch` whose table starts at `q`.
pub open spec fn table_offsets(code: Seq<u8>, q: int, size: nat) -> Seq<i32> {
    Seq::new(size, |k: int| u4_at(code, q + 4 * k) as i32)
}

/// The instruction that starts at position `i` of the code. Switches read
/// three bytes of padding after the opcode.
pub open spec fn decode_at(code: Seq<u8>, i: int) -> Decoded {
    let op = code[i];
    let p = i + 1;
    let n = code.len() as int;
    if op_no_operand(op) is Some {
        Decoded::Simple(op_no_operand(op)->0, p)
    } else if op_u1_operand(op, 0) is Some {
        if p + 1 > n { Decoded::Truncated } else { Decoded::Simple(op_u1_operand(op, code[p])->0, p + 1) }
    } else if op_u2_operand(op, 0) is Some {
        if p + 2 > n { Decoded::Truncated } else { Decoded::Simple(op_u2_operand(op, u2_at(code, p))->0, p + 2) }
    } else if op_u4_operand(op, 0) is Some {
        if p + 4 > n { Decoded::Truncated } else { Decoded::Simple(op_u4_operand(op, u4_at(code, p))->0, p + 4) }
    } else if op == 0x84 {
        if p + 2 > n {
            Decoded::Truncated
        } else {
            Decoded::Simple(Instruction::Iinc(code[p], code[p + 1] as i8), p + 2)
        }
    } else if op == 0xba {
        if p + 4 > n { Decoded::Truncated } else { Decoded::Simple(Instruction::Invokedynamic(u2_at(code, p)), p + 4) }
    } else if op == 0xb9 {
        if p + 4 > n {
            Decoded::Truncated
        } else {
            Decoded::Simple(Instruction::Invokeinterface(u2_at(code, p), code[p + 2]), p + 4)
        }
    } else if op == 0xc5 {
        if p + 3 > n {
            Decoded::Truncated
        } else {
            Decoded::Simple(Instruction::Multianewarray(u2_at(code, p), code[p + 2]), p + 3)
        }
    } else if op == 0xab {
        if p + 11 > n {
            Decoded::Truncated
        } else {
            let npairs = u4_at(code, p + 7);
            let q = p + 11;
            if q + 8 * npairs > n {
                Decoded::Truncated
            } else {
                Decoded::Lookup(u4_at(code, p + 3), npairs, lookup_pairs(code, q, npairs as nat), q + 8 * npairs)
            }
        }
    } else if op == 0xaa {
        if p + 15 > n {
            Decoded::Truncated
        } else {
            let low = u4_at(code, p + 7);
            let high = u4_at(code, p + 11);
            let q = p + 15;
            if high < low || high - low + 1 > u32::MAX {
                Decoded::Truncated
            } else {
                let size = (high - low + 1) as nat;
                if q + 4 * size > n {
                    Decoded::Truncated
                } else {
                    Decoded::Table(u4_at(code, p + 3), low, high, table_offsets(code, q, size), q + 4 * size)
                }
            }
        }
    } else {
        Decoded::Unknown
    }
}

/// The bytecode of a method.
#[derive(Debug)]
pub struct ByteCodes(pub Vec<u8>);

/// Walks through bytecode one instruction at a time.
pub struct ByteCodesInterator<'a> {
    byte_codes: &'a ByteCodes,
    index: usize,
}

impl ByteCodes {
    pub fn iter(&self) -> (it: ByteCodesInterator<'_>)
        ensures
            it.codes() == self.0@,
            it.position() == 0,
    {
        ByteCodesInterator { byte_codes: self, index: 0 }
    }

    fn read_u1(&self, index: usize) -> (r: Option<u8>)
        ensures
            r == (if index < self.0@.len() { Some(self.0@[index as int]) } else { None::<u8> }),
    {
        if index < self.0.len() {
            Some(self.0[index])
        } else {
            None
        }
    }
}

impl<'a> ByteCodesInterator<'a> {
    /// The code being walked through.
    pub closed spec fn codes(&self) -> Seq<u8> {
        self.byte_codes.0@
    }

    /// The position of the next instruction.
    pub closed spec fn position(&self) -> int {
        self.index as int
    }

    /// Whether the instruction at the current position can be decoded without
    /// running past the end of the code.
    pub open spec fn can_advance(&self) -> bool {
        self.position() < self.codes().len() ==> !(decode_at(self.codes(), self.position()) is Truncated)
    }

    fn read_u1(&mut self) -> (b: u8)
        requires
            old(self).position() < old(self).codes().len(),
        ensures
            b == old(self).codes()[old(self).position()],
            final(self).position() == old(self).position() + 1,
            final(self).codes() == old(self).codes(),
    {
        let _n = self.byte_codes.0.len();
        let b = self.byte_codes.0[self.index];
        self.index = self.index + 1;
        b
    }

    fn read_u2(&mut self) -> (v: u16)
        requires
            old(self).position() + 2 <= old(self).codes().len(),
        ensures
            v == u2_at(old(self).codes(), old(self).position()),
            final(self).position() == old(self).position() + 2,
            final(self).codes() == old(self).codes(),
    {
        let byte1 = self.read_u1();
        let byte2 = self.read_u1();
        ((byte1 as u16) << 8u16) | (byte2 as u16)
    }

    fn read_u4(&mut self) -> (v: u32)
        requires
            old(self).position() + 4 <= old(self).codes().len(),
        ensures
            v == u4_at(old(self).codes(), old(self).position()),
            final(self).position() == old(self).position() + 4,
            final(self).codes() == old(self).codes(),
    {
        let byte1 = self.read_u1();
        let byte2 = self.read_u1();
        let byte3 = self.read_u1();
        let byte4 = self.read_u1();
        ((byte1 as u32) << 24u32) | ((byte2 as u32) << 16u32) | ((byte3 as u32) << 8u32) | (byte4 as u32)
    }

    /// Decodes the instruction at the current position and moves past it.
    /// At the end of the code it gives `None` and stays put; on a byte that is
    /// no known opcode it gives `None` and moves past that byte.
    pub fn next(&mut self) -> (r: Option<Instruction>)
        requires
            old(self).can_advance(),
        ensures
            final(self).codes() == old(self).codes(),
            old(self).position() >= old(self).codes().len() ==> r is None && final(self).position()
                == old(self).position(),
            old(self).position() < old(self).codes().len() ==> match decode_at(
                old(self).codes(),
                old(self).position(),
            ) {
                Decoded::Simple(ins, next) => r == Some(ins) && final(self).position() == next,
                Decoded::Lookup(d, n, pairs, next) => {
                    &&& r matches Some(Instruction::Lookupswitch(d2, n2, v))
                    &&& d2 == d && n2 == n && v@ == pairs
                    &&& final(self).position() == next
                },
                Decoded::Table(d, lo, hi, offsets, next) => {
                    &&& r matches Some(Instruction::Tableswitch(d2, lo2, hi2, v))
                    &&& d2 == d && lo2 == lo && hi2 == hi && v@ == offsets
                    &&& final(self).position() == next
                },
                Decoded::Unknown => r is None && final(self).position() == old(self).position() + 1,
                Decoded::Truncated => false,
            },
    {
        if self.index >= self.byte_codes.0.len() {
            return None;
        }
        let ghost code = self.codes();
        let ghost start = self.position();
        let op_byte = self.read_u1();
        if let Some(ins) = op_no_operand_exec(op_byte) {
            return Some(ins);
        }
        if op_u1_operand_exec(op_byte, 0).is_some() {
            let b = self.read_u1();
            return op_u1_operand_exec(op_byte, b);
        }
        if op_u2_operand_exec(op_byte, 0).is_some() {
            let v = self.read_u2();
            return op_u2_operand_exec(op_byte, v);
        }
        if op_u4_operand_exec(op_byte, 0).is_some() {
            let v = self.read_u4();
            return op_u4_operand_exec(op_byte, v);
        }
        if op_byte == 0x84 {
            let index = self.read_u1();
            let c = self.read_u1();
            return Some(Instruction::Iinc(index, c as i8));
        }
        if op_byte == 0xba {
            let index = self.read_u2();
            let _ = self.read_u2();
            return Some(Instruction::Invokedynamic(index));
        }
        if op_byte == 0xb9 {
            let index = self.read_u2();
            let cnt = self.read_u1();
            let _ = self.read_u1();
            return Some(Instruction::Invokeinterface(index, cnt));
        }
        if op_byte == 0xc5 {
            let index = self.read_u2();
            let dims = self.read_u1();
            return Some(Instruction::Multianewarray(index, dims));
        }
        if op_byte == 0xab {
            let _ = self.read_u1();
            let _ = self.read_u1();
            let _ = self.read_u1();
            let default = self.read_u4();
            let npairs = self.read_u4();
            let ghost q = self.position();
            let mut pairs: Vec<(u32, i32)> = Vec::new();
            let mut k: u32 = 0;
            while k < npairs
                invariant
                    self.codes() == code,
                    0 <= start < code.len(),
                    q == start + 12,
                    npairs == u4_at(code, start + 8),
                    q + 8 * npairs <= code.len(),
                    k <= npairs,
                    self.position() == q + 8 * k,
                    pairs@ == lookup_pairs(code, q, k as nat),
                decreases npairs - k,
            {
                let int_match = self.read_u4();
                let offset = self.read_u4() as i32;
                pairs.push((int_match, offset));
                k = k + 1;
                assert(pairs@ =~= lookup_pairs(code, q, k as nat));
            }
            return Some(Instruction::Lookupswitch(default, npairs, pairs));
        }
        if op_byte == 0xaa {
            let _ = self.read_u1();
            let _ = self.read_u1();
            let _ = self.read_u1();
            let default = self.read_u4();
            let low = self.read_u4();
            let high = self.read_u4();
            let size = high - low + 1;
            let ghost q = self.position();
            let mut offsets: Vec<i32> = Vec::new();
            let mut k: u32 = 0;
            while k < size
                invariant
                    self.codes() == code,
                    0 <= start < code.len(),
                    q == start + 16,
                    q + 4 * size <= code.len(),
                    k <= size,
                    self.position() == q + 4 * k,
                    offsets@ == table_offsets(code, q, k as nat),
                decreases size - k,
            {
                offsets.push(self.read_u4() as i32);
                k = k + 1;
                assert(offsets@ =~= table_offsets(code, q, k as nat));
            }
            return Some(Instruction::Tableswitch(default, low, high, offsets));
        }
        None
    }
}

/// One entry of a method's exception table.
#[derive(Debug, Clone, Copy)]
pub struct ExceptionEntry {
    pub start_pc: u16,
    pub end_pc: u16,
    pub handler_pc: u16,
    pub catch_type: u16,
}

/// The `Code` attribute of a method, as the virtual machine keeps it.
#[derive(Debug)]
pub struct Code {
    pub max_stack: u16,
    pub max_locals: u16,
    pub byte_codes: ByteCodes,
    pub exception_table_length: u16,
    pub exception_table: Vec<ExceptionEntry>,
}

impl Code {
    pub open spec fn table(&self) -> Seq<ExceptionTableEntry> {
        self.exception_table@.map_values(
            |e: ExceptionEntry| (e.start_pc, e.end_pc, e.handler_pc, e.catch_type),
        )
    }

    pub open spec fn table_length(&self) -> u16 {
        self.exception_table_length
    }
}

/// The position of the first `Code` attribute among `attrs[from..]`.
pub open spec fn first_code_attr(attrs: Seq<AttributeInfo>, from: int) -> Option<int>
    decreases attrs.len() - from,
{
    if from >= attrs.len() || from < 0 {
        None
    } else if attrs[from] is Code {
        Some(from)
    } else {
        first_code_attr(attrs, from + 1)
    }
}

/// The `Code` attribute of a method, turned into the form the virtual
/// machine keeps; `None` when the method has none.
pub fn link_code(method_info: &MethodInfo) -> (r: Option<Code>)
    ensures
        match first_code_attr(method_info.attributes@, 0) {
            None => r is None,
            Some(k) => match method_info.attributes@[k] {
                AttributeInfo::Code { max_stack, max_locals, code, exception_table_length, exception_table, .. } => {
                    &&& r is Some
                    &&& r->0.max_stack == max_stack
                    &&& r->0.max_locals == max_locals
                    &&& r->0.byte_codes.0@ == code@
                    &&& r->0.table_length() == exception_table_length
                    &&& r->0.table() == exception_table@
                },
                _ => false,
            },
        },
{
    let attrs = &method_info.attributes;
    let mut i: usize = 0;
    while i < attrs.len()
        invariant
            i <= attrs@.len(),
            attrs@ == method_info.attributes@,
            first_code_attr(attrs@, 0) == first_code_attr(attrs@, i as int),
        decreases attrs@.len() - i,
    {
        match &attrs[i] {
            AttributeInfo::Code { max_stack, max_locals, code, exception_table_length, exception_table, .. } => {
                let mut rt_exception_table: Vec<ExceptionEntry> = Vec::new();
                let mut j: usize = 0;
                while j < exception_table.len()
                    invariant
                        j <= exception_table@.len(),
                        rt_exception_table@.len() == j,
                        forall|k: int|
                            0 <= k < j ==> {
                                let e = #[trigger] rt_exception_table@[k];
                                (e.start_pc, e.end_pc, e.handler_pc, e.catch_type) == exception_table@[k]
                            },
                    decreases exception_table@.len() - j,
                {
                    let e = exception_table[j];
                    rt_exception_table.push(
                        ExceptionEntry { start_pc: e.0, end_pc: e.1, handler_pc: e.2, catch_type: e.3 },
                    );
                    j = j + 1;
                }
                assert(rt_exception_table@.map_values(
                    |e: ExceptionEntry| (e.start_pc, e.end_pc, e.handler_pc, e.catch_type),
                ) =~= exception_table@);
                assert(first_code_attr(attrs@, i as int) == Some(i as int));
                assert(first_code_attr(method_info.attributes@, 0) == Some(i as int));
                let bytes = code.clone();
                assert(bytes@ =~= code@);
                let ghost bv = bytes@;
                let c = Code {
                    max_stack: *max_stack,
                    max_locals: *max_locals,
                    byte_codes: ByteCodes(bytes),
                    exception_table_length: *exception_table_length,
                    exception_table: rt_exception_table,
                };
                assert(c.byte_codes.0@ == code@);
                assert(c.table() == exception_table@);
                return Some(c);
            },
            _ => {},
        }
        i = i + 1;
    }
    assert(first_code_attr(attrs@, i as int) is None);
    None
}

/// A method of a loaded class, ready to run.
#[derive(Debug)]
pub struct Method {
    pub access_flags: u16,
    pub name: String,
    pub descriptor: String,
    pub code: Vec<u8>,
    pub max_stack: usize,
    pub max_locals: usize,
    pub constant_pool: Vec<CpInfo>,
}

pub ghost struct MethodView {
    pub access_flags: u16,
    pub name: Seq<char>,
    pub descriptor: Seq<char>,
    pub code: Seq<u8>,
    pub max_stack: usize,
    pub max_locals: usize,
    pub constant_pool: Seq<CpInfo>,
}

impl View for Method {
    type V = MethodView;

    open spec fn view(&self) -> MethodView {
        MethodView {
            access_flags: self.access_flags,
            name: self.name@,
            descriptor: self.descriptor@,
            code: self.code@,
            max_stack: self.max_stack,
            max_locals: self.max_locals,
            constant_pool: self.constant_pool@,
        }
    }
}

/// The method that a class file's method entry describes, with the class's
/// constant pool attached.
pub open spec fn method_view_of(info: MethodInfo, cp: Seq<CpInfo>) -> MethodView {
    let linked: (Seq<u8>, usize, usize) = match first_code_attr(info.attributes@, 0) {
        Some(k) => match info.attributes@[k] {
            AttributeInfo::Code { max_stack, max_locals, code, .. } => (
                code@,
                max_stack as usize,
                max_locals as usize,
            ),
            _ => (Seq::empty(), 0, 0),
        },
        None => (Seq::empty(), 0, 0),
    };
    MethodView {
        access_flags: info.access_flags,
        name: utf8_at(cp, info.name_index as int)->0,
        descriptor: utf8_at(cp, info.descriptor_index as int)->0,
        code: linked.0,
        max_stack: linked.1,
        max_locals: linked.2,
        constant_pool: cp,
    }
}

impl MethodView {
    pub open spec fn is_native(self) -> bool {
        self.access_flags & ACC_NATIVE != 0
    }

    pub open spec fn fq(self) -> Seq<char> {
        fq_key(self.name, self.descriptor)
    }
}

impl Clone for Method {
    fn clone(&self) -> (r: Self)
        ensures
            r@ == self@,
    {
        let code = self.code.clone();
        assert(code@ =~= self.code@);
        Method {
            access_flags: self.access_flags,
            name: self.name.clone(),
            descriptor: self.descriptor.clone(),
            code,
            max_stack: self.max_stack,
            max_locals: self.max_locals,
            constant_pool: copy_pool(&self.constant_pool),
        }
    }
}

impl Method {
    /// A method with the given code and an empty constant pool.
    pub fn new(
        name: String,
        descriptor: String,
        access_flags: u16,
        code: Vec<u8>,
        max_stack: usize,
        max_locals: usize,
    ) -> (m: Method)
        ensures
            m@ == (MethodView {
                access_flags,
                name: name@,
                descriptor: descriptor@,
                code: code@,
                max_stack,
                max_locals,
                constant_pool: Seq::empty(),
            }),
    {
        Method { access_flags, name, descriptor, code, max_stack, max_locals, constant_pool: Vec::new() }
    }

    /// The method as a class file declares it, with its code linked and its
    /// class's constant pool attached. A method without code gets empty code
    /// and no stack or locals.
    pub fn from_method_info(method_info: &MethodInfo, cp: &Vec<CpInfo>) -> (m: Method)
        requires
            utf8_at(cp@, method_info.name_index as int) is Some,
            utf8_at(cp@, method_info.descriptor_index as int) is Some,
        ensures
            m@ == method_view_of(*method_info, cp@),
    {
        let name = match get_utf8_string(cp, method_info.name_index) {
            Some(s) => s,
            None => String::new(),
        };
        let descriptor = match get_utf8_string(cp, method_info.descriptor_index) {
            Some(s) => s,
            None => String::new(),
        };
        let (code, max_stack, max_locals) = match link_code(method_info) {
            Some(c) => (c.byte_codes.0, c.max_stack as usize, c.max_locals as usize),
            None => (Vec::new(), 0, 0),
        };
        Method {
            access_flags: method_info.access_flags,
            name,
            descriptor,
            code,
            max_stack,
            max_locals,
            constant_pool: copy_pool(cp),
        }
    }

    /// The name and descriptor, separated by a space.
    pub fn get_unique_key(&self) -> (s: String)
        ensures
            s@ == self.name@ + " "@ + self.descriptor@,
    {
        join3(self.name.as_str(), " ", self.descriptor.as_str())
    }

    /// The name and descriptor, separated by a dot.
    pub fn get_fq_name_desc(&self) -> (s: String)
        ensures
            s@ == self@.fq(),
    {
        join3(self.name.as_str(), ".", self.descriptor.as_str())
    }

    pub fn get_name(&self) -> (s: String)
        ensures
            s@ == self.name@,
    {
        self.name.clone()
    }

    pub fn get_descriptor(&self) -> (s: String)
        ensures
            s@ == self.descriptor@,
    {
        self.descriptor.clone()
    }

    pub fn get_code(&self) -> (c: &Vec<u8>)
        ensures
            c@ == self.code@,
    {
        &self.code
    }

    pub fn is_native(&self) -> (b: bool)
        ensures
            b == self@.is_native(),
    {
        self.access_flags & ACC_NATIVE != 0
    }
}

} // verus!
