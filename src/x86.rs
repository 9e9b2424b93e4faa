use vstd::prelude::*;

use crate::emu_env::GPR_OFFSET;
use crate::error::EmuError;
use crate::label::{label_step, labels_wf, LabelTable};
use crate::tcg::{TCGOp, TCGOpcode, TCGv, TCGvType};

verus! {

/// The x86-64 opcodes that the backend emits.
#[derive(Debug, Clone, Copy, PartialEq, Eq, Structural)]
#[allow(non_camel_case_types)]
pub enum X86Opcode {
    MOV_EV_IV,
    MOV_GV_EV,
    MOV_EV_GV,
    ADD_EV_IV,
    ADD_GV_EV,
    ADD_EAX_IV,
    SUB_GV_EV,
    AND_GV_EV,
    OR_GV_EV,
    XOR_GV_EV,
    AND_EAX_IV,
    OR_EAX_IV,
    XOR_EAX_IV,
}

/// The ModR/M bytes that address `disp(%rbp)` in each addressing mode.
#[derive(Debug, Clone, Copy, PartialEq, Eq, Structural)]
#[allow(non_camel_case_types)]
pub enum X86ModRM {
    MOD_00,
    MOD_01,
    MOD_10,
    MOD_11,
}

pub open spec fn opcode_byte(op: X86Opcode) -> u8 {
    match op {
        X86Opcode::MOV_EV_IV => 0xc7,
        X86Opcode::MOV_GV_EV => 0x8b,
        X86Opcode::MOV_EV_GV => 0x89,
        X86Opcode::ADD_EV_IV => 0x81,
        X86Opcode::ADD_GV_EV => 0x03,
        X86Opcode::ADD_EAX_IV => 0x05,
        X86Opcode::SUB_GV_EV => 0x2b,
        X86Opcode::AND_GV_EV => 0x23,
        X86Opcode::OR_GV_EV => 0x0b,
        X86Opcode::XOR_GV_EV => 0x33,
        X86Opcode::AND_EAX_IV => 0x25,
        X86Opcode::OR_EAX_IV => 0x0d,
        X86Opcode::XOR_EAX_IV => 0x35,
    }
}

pub open spec fn modrm_byte(m: X86ModRM) -> u8 {
    match m {
        X86ModRM::MOD_00 => 0x05,
        X86ModRM::MOD_01 => 0x45,
        X86ModRM::MOD_10 => 0x85,
        X86ModRM::MOD_11 => 0xc5,
    }
}

/// Byte `i` of `x`, least significant first.
pub open spec fn le_byte(x: u32, i: int) -> u8 {
    ((x >> ((8 * i) as u32)) & 0xff) as u8
}

/// The `n` low bytes of `x` (at most four), least significant first.
pub open spec fn le_bytes(x: u32, n: nat) -> Seq<u8> {
    Seq::new(if n < 4 { n } else { 4 }, |i: int| le_byte(x, i))
}

pub open spec fn le4(x: u32) -> Seq<u8> {
    le_bytes(x, 4)
}

fn is_reg(v: Option<TCGv>) -> (b: bool)
    ensures
        b == reg_ok(v),
{
    match v {
        Some(x) => x.t == TCGvType::Register && x.value < 32,
        None => false,
    }
}

fn is_operand(v: Option<TCGv>) -> (b: bool)
    ensures
        b == operand_ok(v),
{
    match v {
        Some(x) => x.t == TCGvType::Immediate || x.value < 32,
        None => false,
    }
}

fn is_label(l: Option<usize>, nlabels: usize) -> (b: bool)
    ensures
        b == (l is Some && l->0 < nlabels),
{
    match l {
        Some(x) => x < nlabels,
        None => false,
    }
}

/// Whether the backend encodes `tcg` in a block with `nlabels` labels.
pub fn is_supported(tcg: &TCGOp, nlabels: usize) -> (b: bool)
    ensures
        b == op_supported(*tcg, nlabels as nat),
{
    match tcg.op {
        None => is_label(tcg.label, nlabels),
        Some(TCGOpcode::BR) => is_label(tcg.label, nlabels),
        Some(TCGOpcode::SUB) => is_reg(tcg.arg0) && is_reg(tcg.arg1) && is_reg(tcg.arg2),
        Some(TCGOpcode::JMP) => {
            is_reg(tcg.arg0) && tcg.arg0.unwrap().value == 0 && is_reg(tcg.arg1)
                && tcg.arg1.unwrap().value == 1
        },
        Some(_) => is_reg(tcg.arg0) && is_reg(tcg.arg1) && is_operand(tcg.arg2),
    }
}

/// Displacement of guest register `r` from the state structure's base.
pub open spec fn gpr_disp(r: u64) -> u32 {
    (GPR_OFFSET + 8 * r) as u32
}

/// REX.W prefix, opcode, ModR/M.
pub open spec fn modrm_code(op: X86Opcode, m: X86ModRM) -> Seq<u8> {
    seq![0x48u8, opcode_byte(op), modrm_byte(m)]
}

/// Load `a1`, apply `op` with `a2` from memory, store to `a0`.
pub open spec fn rrr_code(op: X86Opcode, a0: u64, a1: u64, a2: u64) -> Seq<u8> {
    modrm_code(X86Opcode::MOV_GV_EV, X86ModRM::MOD_10) + le4(gpr_disp(a1))
        + modrm_code(op, X86ModRM::MOD_10) + le4(gpr_disp(a2))
        + modrm_code(X86Opcode::MOV_EV_GV, X86ModRM::MOD_10) + le4(gpr_disp(a0))
}

/// Load `a1`, apply `op` with the immediate `imm` on %eax, store to `a0`.
pub open spec fn rri_code(op: X86Opcode, a0: u64, a1: u64, imm: u64) -> Seq<u8> {
    modrm_code(X86Opcode::MOV_GV_EV, X86ModRM::MOD_10) + le4(gpr_disp(a1))
        + seq![opcode_byte(op)] + le4(imm as u32)
        + modrm_code(X86Opcode::MOV_EV_GV, X86ModRM::MOD_10) + le4(gpr_disp(a0))
}

/// Store the immediate `imm` to `a0`.
pub open spec fn store_imm_code(a0: u64, imm: u64) -> Seq<u8> {
    modrm_code(X86Opcode::MOV_EV_IV, X86ModRM::MOD_10) + le4(gpr_disp(a0)) + le4(imm as u32)
}

/// Copy register `a2` to register `a0`.
pub open spec fn copy_code(a0: u64, a2: u64) -> Seq<u8> {
    modrm_code(X86Opcode::MOV_GV_EV, X86ModRM::MOD_10) + le4(gpr_disp(a2))
        + modrm_code(X86Opcode::MOV_EV_GV, X86ModRM::MOD_10) + le4(gpr_disp(a0))
}

/// `mov 0x58(%rbp),%eax`: the value of x10 becomes the block's result.
pub open spec fn ret_code() -> Seq<u8> {
    seq![0x8bu8, 0x45u8, 0x58u8]
}

/// `jmp rel32` with a zero placeholder displacement.
pub open spec fn br_code() -> Seq<u8> {
    seq![0xe9u8, 0u8, 0u8, 0u8, 0u8]
}

/// `movabs $addr,%rcx; jmp *%rcx`.
pub open spec fn exit_code(addr: u64) -> Seq<u8> {
    seq![0x48u8, 0xb9u8] + le4(addr as u32) + le4((addr >> 32u64) as u32) + seq![0xffu8, 0xe1u8]
}

pub open spec fn reg_ok(v: Option<TCGv>) -> bool {
    v is Some && v->0.t == TCGvType::Register && v->0.value < 32
}

pub open spec fn operand_ok(v: Option<TCGv>) -> bool {
    v is Some && (v->0.t == TCGvType::Immediate || v->0.value < 32)
}

pub open spec fn val(v: Option<TCGv>) -> u64 {
    v->0.value
}

/// Operands accepted by the add, and, or and xor opcodes.
pub open spec fn arith_ok(tcg: TCGOp) -> bool {
    reg_ok(tcg.arg0) && reg_ok(tcg.arg1) && operand_ok(tcg.arg2)
}

pub open spec fn rrr_ok(tcg: TCGOp) -> bool {
    reg_ok(tcg.arg0) && reg_ok(tcg.arg1) && reg_ok(tcg.arg2)
}

pub open spec fn rri_ok(tcg: TCGOp) -> bool {
    reg_ok(tcg.arg0) && reg_ok(tcg.arg1) && tcg.arg2 is Some && tcg.arg2->0.t
        == TCGvType::Immediate
}

/// The one operand pattern of `JMP` that the backend encodes: (x0, x1).
pub open spec fn ret_ok(tcg: TCGOp) -> bool {
    tcg.op == Some(TCGOpcode::JMP) && reg_ok(tcg.arg0) && val(tcg.arg0) == 0 && reg_ok(tcg.arg1)
        && val(tcg.arg1) == 1
}

/// The code for an add, and, or or xor: `rr` is the opcode with a register
/// operand, `ri` the one with an immediate operand.
pub open spec fn arith_code(rr: X86Opcode, ri: X86Opcode, tcg: TCGOp) -> Seq<u8> {
    let a0 = val(tcg.arg0);
    let a1 = val(tcg.arg1);
    let a2 = tcg.arg2->0;
    if a0 == 0 {
        seq![]
    } else if a2.t == TCGvType::Immediate {
        if a1 == 0 {
            store_imm_code(a0, a2.value)
        } else {
            rri_code(ri, a0, a1, a2.value)
        }
    } else if a1 == 0 && a2.value == 0 {
        store_imm_code(a0, 0)
    } else if a1 == 0 {
        copy_code(a0, a2.value)
    } else if a2.value == 0 {
        // x0 as the second source: `and` gives zero, the others the first source
        if rr == X86Opcode::AND_GV_EV {
            store_imm_code(a0, 0)
        } else {
            copy_code(a0, a1)
        }
    } else {
        rrr_code(rr, a0, a1, a2.value)
    }
}

/// Load `a2`, negate it, store to `a0`.
pub open spec fn neg_code(a0: u64, a2: u64) -> Seq<u8> {
    modrm_code(X86Opcode::MOV_GV_EV, X86ModRM::MOD_10) + le4(gpr_disp(a2)) + seq![
        0x48u8,
        0xf7u8,
        0xd8u8,
    ] + modrm_code(X86Opcode::MOV_EV_GV, X86ModRM::MOD_10) + le4(gpr_disp(a0))
}

/// The code for a subtraction; x0 as a source reads as zero and is never
/// loaded.
pub open spec fn sub_code(tcg: TCGOp) -> Seq<u8> {
    let a0 = val(tcg.arg0);
    let a1 = val(tcg.arg1);
    let a2 = val(tcg.arg2);
    if a0 == 0 {
        seq![]
    } else if a1 == 0 && a2 == 0 {
        store_imm_code(a0, 0)
    } else if a2 == 0 {
        copy_code(a0, a1)
    } else if a1 == 0 {
        neg_code(a0, a2)
    } else {
        rrr_code(X86Opcode::SUB_GV_EV, a0, a1, a2)
    }
}

/// Whether the backend encodes `tcg` in a block with `nlabels` labels.
pub open spec fn op_supported(tcg: TCGOp, nlabels: nat) -> bool {
    match tcg.op {
        None => tcg.label is Some && tcg.label->0 < nlabels,
        Some(TCGOpcode::BR) => tcg.label is Some && tcg.label->0 < nlabels,
        Some(TCGOpcode::SUB) => rrr_ok(tcg),
        Some(TCGOpcode::JMP) => ret_ok(tcg),
        Some(_) => arith_ok(tcg),
    }
}

/// The bytes that the backend emits for `tcg`; a label marker emits none.
pub open spec fn op_code(tcg: TCGOp) -> Seq<u8> {
    match tcg.op {
        None => seq![],
        Some(TCGOpcode::ADD) => arith_code(X86Opcode::ADD_GV_EV, X86Opcode::ADD_EAX_IV, tcg),
        Some(TCGOpcode::ADDI) => arith_code(X86Opcode::ADD_GV_EV, X86Opcode::ADD_EAX_IV, tcg),
        Some(TCGOpcode::SUB) => sub_code(tcg),
        Some(TCGOpcode::AND) => arith_code(X86Opcode::AND_GV_EV, X86Opcode::AND_EAX_IV, tcg),
        Some(TCGOpcode::OR) => arith_code(X86Opcode::OR_GV_EV, X86Opcode::OR_EAX_IV, tcg),
        Some(TCGOpcode::XOR) => arith_code(X86Opcode::XOR_GV_EV, X86Opcode::XOR_EAX_IV, tcg),
        Some(TCGOpcode::JMP) => ret_code(),
        Some(TCGOpcode::BR) => br_code(),
    }
}

proof fn lemma_pack3(w: u32, a: u32, b: u32, c: u32)
    requires
        a < 256,
        b < 256,
        c < 256,
        w == (c << 16u32) | (b << 8u32) | a,
    ensures
        le_bytes(w, 3) == seq![a as u8, b as u8, c as u8],
{
    assert((w >> 0u32) & 0xff == a) by (bit_vector)
        requires
            a < 256,
            b < 256,
            c < 256,
            w == (c << 16u32) | (b << 8u32) | a,
    ;
    assert((w >> 8u32) & 0xff == b) by (bit_vector)
        requires
            a < 256,
            b < 256,
            c < 256,
            w == (c << 16u32) | (b << 8u32) | a,
    ;
    assert((w >> 16u32) & 0xff == c) by (bit_vector)
        requires
            a < 256,
            b < 256,
            c < 256,
            w == (c << 16u32) | (b << 8u32) | a,
    ;
    assert(le_bytes(w, 3) =~= seq![a as u8, b as u8, c as u8]);
}

proof fn lemma_byte0(x: u32)
    requires
        x < 256,
    ensures
        le_bytes(x, 1) == seq![x as u8],
{
    assert((x >> 0u32) & 0xff == x) by (bit_vector)
        requires
            x < 256,
    ;
    assert(le_bytes(x, 1) =~= seq![x as u8]);
}

proof fn lemma_zero4()
    ensures
        le4(0) == seq![0u8, 0u8, 0u8, 0u8],
{
    assert(forall|k: u32| k < 32 ==> (#[trigger] (0u32 >> k)) & 0xff == 0) by (bit_vector);
    assert(le4(0) =~= seq![0u8, 0u8, 0u8, 0u8]);
}

fn opcode_value(op: X86Opcode) -> (r: u32)
    ensures
        r == opcode_byte(op),
{
    match op {
        X86Opcode::MOV_EV_IV => 0xc7,
        X86Opcode::MOV_GV_EV => 0x8b,
        X86Opcode::MOV_EV_GV => 0x89,
        X86Opcode::ADD_EV_IV => 0x81,
        X86Opcode::ADD_GV_EV => 0x03,
        X86Opcode::ADD_EAX_IV => 0x05,
        X86Opcode::SUB_GV_EV => 0x2b,
        X86Opcode::AND_GV_EV => 0x23,
        X86Opcode::OR_GV_EV => 0x0b,
        X86Opcode::XOR_GV_EV => 0x33,
        X86Opcode::AND_EAX_IV => 0x25,
        X86Opcode::OR_EAX_IV => 0x0d,
        X86Opcode::XOR_EAX_IV => 0x35,
    }
}

fn modrm_value(m: X86ModRM) -> (r: u32)
    ensures
        r == modrm_byte(m),
{
    match m {
        X86ModRM::MOD_00 => 0x05,
        X86ModRM::MOD_01 => 0x45,
        X86ModRM::MOD_10 => 0x85,
        X86ModRM::MOD_11 => 0xc5,
    }
}

/// Displacement of guest register `r` from the state structure's base.
fn conv_gpr_offset(r: u64) -> (d: u32)
    requires
        r < 32,
    ensures
        d == gpr_disp(r),
{
    (GPR_OFFSET as u64 + 8 * r) as u32
}

/// Encodes IR operations as x86-64 machine code.
pub struct TCGX86;

impl TCGX86 {
    /// Appends the `byte_len` low bytes of `inst` (at most four) to `v`,
    /// least significant first.
    pub fn tcg_out(inst: u32, byte_len: usize, v: &mut Vec<u8>)
        ensures
            final(v)@ == old(v)@ + le_bytes(inst, byte_len as nat),
    {
        let n: u32 = if byte_len < 4 {
            byte_len as u32
        } else {
            4
        };
        let mut i: u32 = 0;
        while i < n
            invariant
                n <= 4,
                n == (if byte_len < 4 { byte_len as nat } else { 4 }),
                i <= n,
                v@ == old(v)@ + le_bytes(inst, i as nat),
            decreases n - i,
        {
            let b: u8 = ((inst >> (8 * i)) & 0xff) as u8;
            assert(b == le_byte(inst, i as int));
            v.push(b);
            assert(le_bytes(inst, (i + 1) as nat) =~= le_bytes(inst, i as nat).push(b));
            i = i + 1;
        }
        assert(le_bytes(inst, n as nat) =~= le_bytes(inst, byte_len as nat));
    }

    /// Appends REX.W, the opcode `op` and the ModR/M byte `modrm`.
    pub fn tcg_modrm_out(op: X86Opcode, modrm: X86ModRM, mc: &mut Vec<u8>)
        ensures
            final(mc)@ == old(mc)@ + modrm_code(op, modrm),
    {
        let o = opcode_value(op);
        let m = modrm_value(modrm);
        let w: u32 = (m << 16u32) | (o << 8u32) | 0x48;
        proof {
            lemma_pack3(w, 0x48, o, m);
        }
        Self::tcg_out(w, 3, mc);
        assert(seq![0x48u32 as u8, o as u8, m as u8] =~= modrm_code(op, modrm));
    }

    /// `op` on two registers: load arg1, apply `op` with arg2, store to arg0.
    pub fn tcg_gen_rrr(op: X86Opcode, tcg: &TCGOp, mc: &mut Vec<u8>)
        requires
            rrr_ok(*tcg),
        ensures
            final(mc)@ == old(mc)@ + rrr_code(op, val(tcg.arg0), val(tcg.arg1), val(tcg.arg2)),
    {
        let arg0 = tcg.arg0.unwrap();
        let arg1 = tcg.arg1.unwrap();
        let arg2 = tcg.arg2.unwrap();

        // mov    reg_offset(%rbp),%eax
        Self::tcg_modrm_out(X86Opcode::MOV_GV_EV, X86ModRM::MOD_10, mc);
        Self::tcg_out(conv_gpr_offset(arg1.value), 4, mc);

        // op     reg_offset(%rbp),%eax
        Self::tcg_modrm_out(op, X86ModRM::MOD_10, mc);
        Self::tcg_out(conv_gpr_offset(arg2.value), 4, mc);

        // mov    %eax,reg_offset(%rbp)
        Self::tcg_modrm_out(X86Opcode::MOV_EV_GV, X86ModRM::MOD_10, mc);
        Self::tcg_out(conv_gpr_offset(arg0.value), 4, mc);
        assert(mc@ =~= old(mc)@ + rrr_code(op, arg0.value, arg1.value, arg2.value));
    }

    /// `op` on a register and an immediate: load arg1, apply `op` with the
    /// immediate on %eax, store to arg0.
    pub fn tcg_gen_rri(op: X86Opcode, tcg: &TCGOp, mc: &mut Vec<u8>)
        requires
            rri_ok(*tcg),
        ensures
            final(mc)@ == old(mc)@ + rri_code(op, val(tcg.arg0), val(tcg.arg1), val(tcg.arg2)),
    {
        let arg0 = tcg.arg0.unwrap();
        let arg1 = tcg.arg1.unwrap();
        let arg2 = tcg.arg2.unwrap();

        // mov    reg_offset(%rbp),%eax
        Self::tcg_modrm_out(X86Opcode::MOV_GV_EV, X86ModRM::MOD_10, mc);
        Self::tcg_out(conv_gpr_offset(arg1.value), 4, mc);

        // op     imm32,%eax
        let o = opcode_value(op);
        proof {
            lemma_byte0(o);
        }
        Self::tcg_out(o, 1, mc);
        Self::tcg_out(arg2.value as u32, 4, mc);

        // mov    %eax,reg_offset(%rbp)
        Self::tcg_modrm_out(X86Opcode::MOV_EV_GV, X86ModRM::MOD_10, mc);
        Self::tcg_out(conv_gpr_offset(arg0.value), 4, mc);
        assert(mc@ =~= old(mc)@ + rri_code(op, arg0.value, arg1.value, arg2.value));
    }

    /// movl   imm32,reg_offset(%rbp)
    fn tcg_gen_store_imm(a0: u64, imm: u64, mc: &mut Vec<u8>)
        requires
            a0 < 32,
        ensures
            final(mc)@ == old(mc)@ + store_imm_code(a0, imm),
    {
        Self::tcg_modrm_out(X86Opcode::MOV_EV_IV, X86ModRM::MOD_10, mc);
        Self::tcg_out(conv_gpr_offset(a0), 4, mc);
        Self::tcg_out(imm as u32, 4, mc);
        assert(mc@ =~= old(mc)@ + store_imm_code(a0, imm));
    }

    /// Copies register `a2` to register `a0` through %eax.
    fn tcg_gen_copy(a0: u64, a2: u64, mc: &mut Vec<u8>)
        requires
            a0 < 32,
            a2 < 32,
        ensures
            final(mc)@ == old(mc)@ + copy_code(a0, a2),
    {
        // mov    reg_offset(%rbp),%eax
        Self::tcg_modrm_out(X86Opcode::MOV_GV_EV, X86ModRM::MOD_10, mc);
        Self::tcg_out(conv_gpr_offset(a2), 4, mc);
        // mov    %eax,reg_offset(%rbp)
        Self::tcg_modrm_out(X86Opcode::MOV_EV_GV, X86ModRM::MOD_10, mc);
        Self::tcg_out(conv_gpr_offset(a0), 4, mc);
        assert(mc@ =~= old(mc)@ + copy_code(a0, a2));
    }

    /// The shared shape of add, and, or and xor, with the zero-register
    /// short cuts.
    fn tcg_gen_arith(rr: X86Opcode, ri: X86Opcode, tcg: &TCGOp, mc: &mut Vec<u8>)
        requires
            arith_ok(*tcg),
        ensures
            final(mc)@ == old(mc)@ + arith_code(rr, ri, *tcg),
    {
        let arg0 = tcg.arg0.unwrap();
        let arg1 = tcg.arg1.unwrap();
        let arg2 = tcg.arg2.unwrap();

        if arg0.value == 0 {
            // a write to x0 is discarded: no code
            assert(mc@ =~= old(mc)@ + arith_code(rr, ri, *tcg));
            return;
        }
        if arg2.t == TCGvType::Immediate {
            if arg1.value == 0 {
                // x0 reads as zero: store the immediate itself
                Self::tcg_gen_store_imm(arg0.value, arg2.value, mc);
            } else {
                Self::tcg_gen_rri(ri, tcg, mc);
            }
        } else {
            if arg1.value == 0 && arg2.value == 0 {
                // both sources are x0: the result is zero
                Self::tcg_gen_store_imm(arg0.value, 0, mc);
            } else if arg1.value == 0 {
                // x0 reads as zero: copy the second operand
                Self::tcg_gen_copy(arg0.value, arg2.value, mc);
            } else if arg2.value == 0 {
                // x0 reads as zero: `and` gives zero, the others the first operand
                if rr == X86Opcode::AND_GV_EV {
                    Self::tcg_gen_store_imm(arg0.value, 0, mc);
                } else {
                    Self::tcg_gen_copy(arg0.value, arg1.value, mc);
                }
            } else {
                Self::tcg_gen_rrr(rr, tcg, mc);
            }
        }
    }

    /// Add, with a register or an immediate second operand.
    pub fn tcg_gen_addi(tcg: &TCGOp, mc: &mut Vec<u8>)
        requires
            arith_ok(*tcg),
        ensures
            final(mc)@ == old(mc)@ + arith_code(X86Opcode::ADD_GV_EV, X86Opcode::ADD_EAX_IV, *tcg),
    {
        Self::tcg_gen_arith(X86Opcode::ADD_GV_EV, X86Opcode::ADD_EAX_IV, tcg, mc);
    }

    /// Subtract, on three registers.
    pub fn tcg_gen_sub(tcg: &TCGOp, mc: &mut Vec<u8>)
        requires
            rrr_ok(*tcg),
        ensures
            final(mc)@ == old(mc)@ + sub_code(*tcg),
    {
        let arg0 = tcg.arg0.unwrap();
        let arg1 = tcg.arg1.unwrap();
        let arg2 = tcg.arg2.unwrap();
        if arg0.value == 0 {
            // a write to x0 is discarded: no code
            assert(mc@ =~= old(mc)@ + sub_code(*tcg));
            return;
        }
        if arg1.value == 0 && arg2.value == 0 {
            // 0 - 0
            Self::tcg_gen_store_imm(arg0.value, 0, mc);
        } else if arg2.value == 0 {
            // x - 0: copy the first operand
            Self::tcg_gen_copy(arg0.value, arg1.value, mc);
        } else if arg1.value == 0 {
            // 0 - x: negate the second operand
            Self::tcg_gen_neg(arg0.value, arg2.value, mc);
        } else {
            Self::tcg_gen_rrr(X86Opcode::SUB_GV_EV, tcg, mc);
        }
    }

    /// Negates register `a2` into register `a0` through %rax.
    fn tcg_gen_neg(a0: u64, a2: u64, mc: &mut Vec<u8>)
        requires
            a0 < 32,
            a2 < 32,
        ensures
            final(mc)@ == old(mc)@ + neg_code(a0, a2),
    {
        // mov    reg_offset(%rbp),%rax
        Self::tcg_modrm_out(X86Opcode::MOV_GV_EV, X86ModRM::MOD_10, mc);
        Self::tcg_out(conv_gpr_offset(a2), 4, mc);
        // neg    %rax
        let w: u32 = 0xd8f748;
        assert(w == (0xd8u32 << 16u32) | (0xf7u32 << 8u32) | 0x48u32) by (bit_vector)
            requires
                w == 0xd8f748u32,
        ;
        proof {
            lemma_pack3(w, 0x48, 0xf7, 0xd8);
        }
        Self::tcg_out(w, 3, mc);
        // mov    %rax,reg_offset(%rbp)
        Self::tcg_modrm_out(X86Opcode::MOV_EV_GV, X86ModRM::MOD_10, mc);
        Self::tcg_out(conv_gpr_offset(a0), 4, mc);
        assert(mc@ =~= old(mc)@ + neg_code(a0, a2));
    }

    /// Bitwise and, with a register or an immediate second operand.
    pub fn tcg_gen_and(tcg: &TCGOp, mc: &mut Vec<u8>)
        requires
            arith_ok(*tcg),
        ensures
            final(mc)@ == old(mc)@ + arith_code(X86Opcode::AND_GV_EV, X86Opcode::AND_EAX_IV, *tcg),
    {
        Self::tcg_gen_arith(X86Opcode::AND_GV_EV, X86Opcode::AND_EAX_IV, tcg, mc);
    }

    /// Bitwise or, with a register or an immediate second operand.
    pub fn tcg_gen_or(tcg: &TCGOp, mc: &mut Vec<u8>)
        requires
            arith_ok(*tcg),
        ensures
            final(mc)@ == old(mc)@ + arith_code(X86Opcode::OR_GV_EV, X86Opcode::OR_EAX_IV, *tcg),
    {
        Self::tcg_gen_arith(X86Opcode::OR_GV_EV, X86Opcode::OR_EAX_IV, tcg, mc);
    }

    /// Bitwise xor, with a register or an immediate second operand.
    pub fn tcg_gen_xor(tcg: &TCGOp, mc: &mut Vec<u8>)
        requires
            arith_ok(*tcg),
        ensures
            final(mc)@ == old(mc)@ + arith_code(X86Opcode::XOR_GV_EV, X86Opcode::XOR_EAX_IV, *tcg),
    {
        Self::tcg_gen_arith(X86Opcode::XOR_GV_EV, X86Opcode::XOR_EAX_IV, tcg, mc);
    }

    /// Return through (x0, x1): loads x10 into %eax, the block's result.
    pub fn tcg_gen_ret(tcg: &TCGOp, mc: &mut Vec<u8>)
        requires
            ret_ok(*tcg),
        ensures
            final(mc)@ == old(mc)@ + ret_code(),
    {
        // mov    0x58(%rbp),%eax
        let d = conv_gpr_offset(10);
        let w: u32 = (d << 16u32) | 0x458b;
        assert(w == (0x58u32 << 16u32) | (0x45u32 << 8u32) | 0x8bu32) by (bit_vector)
            requires
                d == 0x58,
                w == (d << 16u32) | 0x458b,
        ;
        proof {
            lemma_pack3(w, 0x8b, 0x45, 0x58);
        }
        Self::tcg_out(w, 3, mc);
    }

    /// `jmp rel32` with a zero displacement, to be patched once the target
    /// label is placed.
    pub fn tcg_gen_br(mc: &mut Vec<u8>)
        ensures
            final(mc)@ == old(mc)@ + br_code(),
    {
        proof {
            lemma_byte0(0xe9);
            lemma_zero4();
        }
        Self::tcg_out(0xe9, 1, mc);
        Self::tcg_out(0, 4, mc);
        assert(mc@ =~= old(mc)@ + br_code());
    }

    /// Jumps to the absolute address `addr` (the trampoline's epilogue)
    /// through %rcx, which the prologue saved.
    pub fn tcg_gen_exit(addr: u64, mc: &mut Vec<u8>)
        ensures
            final(mc)@ == old(mc)@ + exit_code(addr),
    {
        // movabs $addr,%rcx
        Self::tcg_out(0xb948, 2, mc);
        Self::tcg_out(addr as u32, 4, mc);
        Self::tcg_out((addr >> 32u64) as u32, 4, mc);
        // jmp    *%rcx
        Self::tcg_out(0xe1ff, 2, mc);
        assert((0xb948u32 >> 0u32) & 0xff == 0x48 && (0xb948u32 >> 8u32) & 0xff == 0xb9
            && (0xe1ffu32 >> 0u32) & 0xff == 0xff && (0xe1ffu32 >> 8u32) & 0xff == 0xe1)
            by (bit_vector);
        assert(le_bytes(0xb948, 2) =~= seq![0x48u8, 0xb9u8]);
        assert(le_bytes(0xe1ff, 2) =~= seq![0xffu8, 0xe1u8]);
        assert(mc@ =~= old(mc)@ + exit_code(addr));
    }

    /// Encodes one IR operation at the end of `mc`, the block's code so far.
    /// A label marker places its label at the current length; a branch
    /// records the site of its displacement field. An operation whose
    /// operands the backend does not encode is refused, and nothing changes.
    pub fn tcg_gen(tcg: &TCGOp, mc: &mut Vec<u8>, labels: &mut LabelTable) -> (r: Result<
        (),
        EmuError,
    >)
        requires
            labels_wf(old(labels)@),
            old(mc)@.len() + 5 <= u32::MAX,
        ensures
            r is Ok <==> op_supported(*tcg, old(labels)@.0.len()),
            r is Ok ==> final(mc)@ == old(mc)@ + op_code(*tcg) && final(labels)@ == label_step(
                old(labels)@,
                *tcg,
                old(mc)@.len(),
            ),
            r is Err ==> r == Err::<(), EmuError>(EmuError::UnsupportedOperandPattern)
                && final(mc)@ == old(mc)@ && final(labels)@ == old(labels)@,
            labels_wf(final(labels)@),
    {
        if !is_supported(tcg, labels.offsets.len()) {
            return Err(EmuError::UnsupportedOperandPattern);
        }
        let pos = mc.len() as u32;
        match tcg.op {
            None => {
                let l = tcg.label.unwrap();
                labels.offsets.set(l, Some(pos));
                assert(mc@ =~= old(mc)@ + op_code(*tcg));
            },
            Some(TCGOpcode::ADD) => Self::tcg_gen_addi(tcg, mc),
            Some(TCGOpcode::ADDI) => Self::tcg_gen_addi(tcg, mc),
            Some(TCGOpcode::SUB) => Self::tcg_gen_sub(tcg, mc),
            Some(TCGOpcode::AND) => Self::tcg_gen_and(tcg, mc),
            Some(TCGOpcode::OR) => Self::tcg_gen_or(tcg, mc),
            Some(TCGOpcode::XOR) => Self::tcg_gen_xor(tcg, mc),
            Some(TCGOpcode::JMP) => Self::tcg_gen_ret(tcg, mc),
            Some(TCGOpcode::BR) => {
                let l = tcg.label.unwrap();
                Self::tcg_gen_br(mc);
                labels.refs.push((l, pos + 1));
            },
        }
        assert(labels@ =~= label_step(old(labels)@, *tcg, old(mc)@.len()));
        Ok(())
    }
}

/// The opcodes that compute into a destination register.
pub open spec fn is_arith(op: TCGOpcode) -> bool {
    op == TCGOpcode::ADD || op == TCGOpcode::ADDI || op == TCGOpcode::SUB || op == TCGOpcode::AND
        || op == TCGOpcode::OR || op == TCGOpcode::XOR
}

/// For every arithmetic opcode, an operation whose destination is x0 emits
/// no code, and one whose source is x0 with an immediate second operand
/// emits exactly the store of the immediate to the destination, never a load
/// of x0. A register source that is x0 is never loaded either: the code
/// stores zero, copies the other source, or (for `sub`) negates it.
pub proof fn lemma_zero_register(tcg: TCGOp, nlabels: nat)
    requires
        tcg.op is Some,
        is_arith(tcg.op->0),
        op_supported(tcg, nlabels),
    ensures
        val(tcg.arg0) == 0 ==> op_code(tcg) == Seq::<u8>::empty(),
        val(tcg.arg0) != 0 && val(tcg.arg1) == 0 && tcg.arg2->0.t == TCGvType::Immediate
            ==> op_code(tcg) == store_imm_code(val(tcg.arg0), val(tcg.arg2)),
        val(tcg.arg0) != 0 && tcg.arg2->0.t == TCGvType::Register && val(tcg.arg1) == 0 && val(
            tcg.arg2,
        ) == 0 ==> op_code(tcg) == store_imm_code(val(tcg.arg0), 0),
        val(tcg.arg0) != 0 && tcg.arg2->0.t == TCGvType::Register && val(tcg.arg1) == 0 && val(
            tcg.arg2,
        ) != 0 ==> op_code(tcg) == (if tcg.op == Some(TCGOpcode::SUB) {
            neg_code(val(tcg.arg0), val(tcg.arg2))
        } else {
            copy_code(val(tcg.arg0), val(tcg.arg2))
        }),
        val(tcg.arg0) != 0 && tcg.arg2->0.t == TCGvType::Register && val(tcg.arg1) != 0 && val(
            tcg.arg2,
        ) == 0 ==> op_code(tcg) == (if tcg.op == Some(TCGOpcode::AND) {
            store_imm_code(val(tcg.arg0), 0)
        } else {
            copy_code(val(tcg.arg0), val(tcg.arg1))
        }),
{
}

} // verus!
