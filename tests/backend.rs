use tcg_jit::error::EmuError;
use tcg_jit::label::LabelTable;
use tcg_jit::tcg::{TCGOp, TCGOpcode, TCGv};
use tcg_jit::x86::{X86ModRM, X86Opcode, TCGX86};

fn reg(r: u64) -> TCGv {
    TCGv::new_reg(r)
}

fn imm(v: u64) -> TCGv {
    TCGv::new_imm(v)
}

fn gen(op: &TCGOp) -> Result<Vec<u8>, EmuError> {
    let mut mc = vec![];
    let mut labels = LabelTable::new(2);
    TCGX86::tcg_gen(op, &mut mc, &mut labels).map(|_| mc)
}

#[test]
fn tcg_out_emits_low_bytes_first() {
    let mut v = vec![0xaa];
    TCGX86::tcg_out(0x1234_5678, 3, &mut v);
    assert_eq!(v, vec![0xaa, 0x78, 0x56, 0x34]);
}

#[test]
fn tcg_out_emits_at_most_four_bytes() {
    let mut v = vec![];
    TCGX86::tcg_out(0x1234_5678, 6, &mut v);
    assert_eq!(v, vec![0x78, 0x56, 0x34, 0x12]);
    let mut w = vec![];
    TCGX86::tcg_out(0x1234_5678, 0, &mut w);
    assert!(w.is_empty());
}

#[test]
fn modrm_out_is_rex_opcode_modrm() {
    let mut v = vec![];
    TCGX86::tcg_modrm_out(X86Opcode::MOV_GV_EV, X86ModRM::MOD_10, &mut v);
    TCGX86::tcg_modrm_out(X86Opcode::XOR_GV_EV, X86ModRM::MOD_11, &mut v);
    assert_eq!(v, vec![0x48, 0x8b, 0x85, 0x48, 0x33, 0xc5]);
}

#[test]
fn write_to_zero_register_emits_nothing() {
    for op in [TCGOpcode::ADD, TCGOpcode::ADDI, TCGOpcode::AND, TCGOpcode::OR, TCGOpcode::XOR] {
        assert_eq!(gen(&TCGOp::new_3op(op, reg(0), reg(3), imm(7))), Ok(vec![]));
        assert_eq!(gen(&TCGOp::new_3op(op, reg(0), reg(3), reg(4))), Ok(vec![]));
    }
    assert_eq!(gen(&TCGOp::new_3op(TCGOpcode::SUB, reg(0), reg(3), reg(4))), Ok(vec![]));
}

#[test]
fn zero_source_with_immediate_stores_the_immediate() {
    let store = vec![0x48, 0xc7, 0x85, 0x30, 0, 0, 0, 0x2a, 0, 0, 0];
    for op in [TCGOpcode::ADD, TCGOpcode::ADDI, TCGOpcode::AND, TCGOpcode::OR, TCGOpcode::XOR] {
        assert_eq!(gen(&TCGOp::new_3op(op, reg(5), reg(0), imm(42))), Ok(store.clone()));
    }
}

#[test]
fn zero_source_with_register_copies() {
    let copy = vec![0x48, 0x8b, 0x85, 0x40, 0, 0, 0, 0x48, 0x89, 0x85, 0x30, 0, 0, 0];
    assert_eq!(gen(&TCGOp::new_3op(TCGOpcode::ADD, reg(5), reg(0), reg(7))), Ok(copy));
}

#[test]
fn register_immediate_add() {
    let code = vec![
        0x48, 0x8b, 0x85, 0x38, 0, 0, 0, 0x05, 0x01, 0, 0, 0, 0x48, 0x89, 0x85, 0x30, 0, 0, 0,
    ];
    assert_eq!(gen(&TCGOp::new_3op(TCGOpcode::ADDI, reg(5), reg(6), imm(1))), Ok(code));
}

#[test]
fn register_immediate_logic_opcodes() {
    for (op, byte) in [(TCGOpcode::AND, 0x25u8), (TCGOpcode::OR, 0x0d), (TCGOpcode::XOR, 0x35)] {
        let code = gen(&TCGOp::new_3op(op, reg(1), reg(2), imm(0xffff_ffff))).unwrap();
        assert_eq!(code.len(), 19);
        assert_eq!(code[7], byte);
        assert_eq!(&code[8..12], &[0xff, 0xff, 0xff, 0xff]);
    }
}

#[test]
fn register_register_ops() {
    let add = gen(&TCGOp::new_3op(TCGOpcode::ADD, reg(5), reg(6), reg(7))).unwrap();
    assert_eq!(
        add,
        vec![
            0x48, 0x8b, 0x85, 0x38, 0, 0, 0, 0x48, 0x03, 0x85, 0x40, 0, 0, 0, 0x48, 0x89, 0x85,
            0x30, 0, 0, 0,
        ]
    );
    let sub = gen(&TCGOp::new_3op(TCGOpcode::SUB, reg(3), reg(1), reg(2))).unwrap();
    assert_eq!(
        sub,
        vec![
            0x48, 0x8b, 0x85, 0x10, 0, 0, 0, 0x48, 0x2b, 0x85, 0x18, 0, 0, 0, 0x48, 0x89, 0x85,
            0x20, 0, 0, 0,
        ]
    );
    for (op, byte) in [(TCGOpcode::AND, 0x23u8), (TCGOpcode::OR, 0x0b), (TCGOpcode::XOR, 0x33)] {
        let code = gen(&TCGOp::new_3op(op, reg(31), reg(30), reg(29))).unwrap();
        assert_eq!(code[8], byte);
        assert_eq!(&code[17..21], &[0x00, 0x01, 0, 0]);
    }
}

#[test]
fn return_loads_x10() {
    let ret = TCGOp::new_2op(TCGOpcode::JMP, reg(0), reg(1));
    assert_eq!(gen(&ret), Ok(vec![0x8b, 0x45, 0x58]));
}

#[test]
fn unsupported_operand_patterns() {
    let cases = [
        TCGOp::new_2op(TCGOpcode::JMP, reg(0), reg(2)),
        TCGOp::new_2op(TCGOpcode::JMP, reg(1), reg(1)),
        TCGOp::new_3op(TCGOpcode::SUB, reg(3), reg(1), imm(2)),
        TCGOp::new_3op(TCGOpcode::ADD, reg(32), reg(1), reg(2)),
        TCGOp::new_3op(TCGOpcode::ADD, imm(3), reg(1), reg(2)),
        TCGOp::new_3op(TCGOpcode::ADD, reg(3), imm(1), reg(2)),
        TCGOp::new_2op(TCGOpcode::ADDI, reg(3), reg(1)),
        TCGOp::new_branch(2),
        TCGOp::new_label(5),
    ];
    for op in cases.iter() {
        let mut mc = vec![1, 2];
        let mut labels = LabelTable::new(2);
        assert_eq!(
            TCGX86::tcg_gen(op, &mut mc, &mut labels),
            Err(EmuError::UnsupportedOperandPattern)
        );
        assert_eq!(mc, vec![1, 2]);
        assert!(labels.refs.is_empty());
    }
}

#[test]
fn branch_and_marker_record_labels() {
    let mut mc = vec![0; 7];
    let mut labels = LabelTable::new(2);
    TCGX86::tcg_gen(&TCGOp::new_branch(1), &mut mc, &mut labels).unwrap();
    assert_eq!(&mc[7..], &[0xe9, 0, 0, 0, 0]);
    assert_eq!(labels.refs, vec![(1, 8)]);
    TCGX86::tcg_gen(&TCGOp::new_label(1), &mut mc, &mut labels).unwrap();
    assert_eq!(mc.len(), 12);
    assert_eq!(labels.offsets, vec![None, Some(12)]);
}

#[test]
fn exit_jumps_to_absolute_address() {
    let mut mc = vec![];
    TCGX86::tcg_gen_exit(0x0000_7f00_0000_100f, &mut mc);
    assert_eq!(mc, vec![0x48, 0xb9, 0x0f, 0x10, 0, 0, 0x00, 0x7f, 0, 0, 0xff, 0xe1]);
}

#[test]
fn zero_as_second_source_is_never_loaded() {
    let copy_6_to_5 = vec![0x48, 0x8b, 0x85, 0x38, 0, 0, 0, 0x48, 0x89, 0x85, 0x30, 0, 0, 0];
    let zero_to_5 = vec![0x48, 0xc7, 0x85, 0x30, 0, 0, 0, 0, 0, 0, 0];
    for op in [TCGOpcode::ADD, TCGOpcode::ADDI, TCGOpcode::OR, TCGOpcode::XOR] {
        assert_eq!(gen(&TCGOp::new_3op(op, reg(5), reg(6), reg(0))), Ok(copy_6_to_5.clone()));
        assert_eq!(gen(&TCGOp::new_3op(op, reg(5), reg(0), reg(0))), Ok(zero_to_5.clone()));
    }
    assert_eq!(gen(&TCGOp::new_3op(TCGOpcode::AND, reg(5), reg(6), reg(0))), Ok(zero_to_5.clone()));
    assert_eq!(gen(&TCGOp::new_3op(TCGOpcode::AND, reg(5), reg(0), reg(0))), Ok(zero_to_5));
}

#[test]
fn sub_with_zero_sources() {
    // x5 = x6 - x0
    assert_eq!(
        gen(&TCGOp::new_3op(TCGOpcode::SUB, reg(5), reg(6), reg(0))),
        Ok(vec![0x48, 0x8b, 0x85, 0x38, 0, 0, 0, 0x48, 0x89, 0x85, 0x30, 0, 0, 0])
    );
    // x5 = x0 - x6
    assert_eq!(
        gen(&TCGOp::new_3op(TCGOpcode::SUB, reg(5), reg(0), reg(6))),
        Ok(vec![
            0x48, 0x8b, 0x85, 0x38, 0, 0, 0, 0x48, 0xf7, 0xd8, 0x48, 0x89, 0x85, 0x30, 0, 0, 0,
        ])
    );
    // x5 = x0 - x0
    assert_eq!(
        gen(&TCGOp::new_3op(TCGOpcode::SUB, reg(5), reg(0), reg(0))),
        Ok(vec![0x48, 0xc7, 0x85, 0x30, 0, 0, 0, 0, 0, 0, 0])
    );
}
