use tcg_jit::block::{emit_block, translate_block, TB_CAPACITY};
use tcg_jit::error::EmuError;
use tcg_jit::label::{patch_labels, LabelTable};
use tcg_jit::tcg::{TCGOp, TCGOpcode, TCGv};

const EXIT: u64 = 0x0000_7f00_0000_100f;

fn exit_bytes() -> Vec<u8> {
    vec![0x48, 0xb9, 0x0f, 0x10, 0, 0, 0x00, 0x7f, 0, 0, 0xff, 0xe1]
}

fn store(r: u64, v: u64) -> TCGOp {
    TCGOp::new_3op(TCGOpcode::ADDI, TCGv::new_reg(r), TCGv::new_reg(0), TCGv::new_imm(v))
}

#[test]
fn forward_branch_is_patched_to_label() {
    let ops = vec![TCGOp::new_branch(0), store(5, 1), TCGOp::new_label(0)];
    let code = translate_block(&ops, 1, EXIT).unwrap();
    let mut expected = vec![0xe9, 11, 0, 0, 0];
    expected.extend_from_slice(&[0x48, 0xc7, 0x85, 0x30, 0, 0, 0, 1, 0, 0, 0]);
    expected.extend(exit_bytes());
    assert_eq!(code, expected);
    // the field's end plus its displacement lands on the label
    let disp = i32::from_le_bytes([code[1], code[2], code[3], code[4]]);
    assert_eq!(5 + disp as i64, 16);
}

#[test]
fn backward_branch_gets_negative_displacement() {
    let ops = vec![TCGOp::new_label(0), store(5, 1), TCGOp::new_branch(0)];
    let code = translate_block(&ops, 1, EXIT).unwrap();
    assert_eq!(&code[11..16], &[0xe9, 0xf0, 0xff, 0xff, 0xff]);
    assert_eq!(&code[16..], exit_bytes().as_slice());
}

#[test]
fn emit_records_then_patch_writes() {
    let ops = vec![TCGOp::new_branch(1), TCGOp::new_branch(0), TCGOp::new_label(1), TCGOp::new_label(0)];
    let mut labels = LabelTable::new(2);
    let mut code = emit_block(&ops, &mut labels, EXIT).unwrap();
    assert_eq!(labels.offsets, vec![Some(10), Some(10)]);
    assert_eq!(labels.refs, vec![(1, 1), (0, 6)]);
    assert_eq!(&code[..10], &[0xe9, 0, 0, 0, 0, 0xe9, 0, 0, 0, 0]);
    assert_eq!(patch_labels(&labels, &mut code), Ok(()));
    assert_eq!(&code[..10], &[0xe9, 5, 0, 0, 0, 0xe9, 0, 0, 0, 0]);
}

#[test]
fn branch_to_missing_label_is_unresolved() {
    let ops = vec![TCGOp::new_branch(0), store(5, 1)];
    assert_eq!(translate_block(&ops, 1, EXIT), Err(EmuError::UnresolvedLabel));
    let mut labels = LabelTable::new(1);
    let mut code = emit_block(&ops, &mut labels, EXIT).unwrap();
    let before = code.clone();
    assert_eq!(patch_labels(&labels, &mut code), Err(EmuError::UnresolvedLabel));
    assert_eq!(code, before);
}

#[test]
fn unsupported_op_fails_the_block() {
    let bad = TCGOp::new_2op(TCGOpcode::JMP, TCGv::new_reg(0), TCGv::new_reg(5));
    let ops = vec![store(5, 1), bad];
    assert_eq!(translate_block(&ops, 0, EXIT), Err(EmuError::UnsupportedOperandPattern));
}

#[test]
fn block_larger_than_region_fails() {
    let op = TCGOp::new_3op(TCGOpcode::ADD, TCGv::new_reg(1), TCGv::new_reg(2), TCGv::new_reg(3));
    // 21 bytes each
    let fits = vec![op; (TB_CAPACITY - 12) / 21];
    assert!(translate_block(&fits, 0, EXIT).is_ok());
    let too_many = vec![op; 60];
    assert_eq!(translate_block(&too_many, 0, EXIT), Err(EmuError::MemoryMapFailure));
}

#[test]
fn empty_block_is_only_the_exit() {
    assert_eq!(translate_block(&vec![], 0, EXIT), Ok(exit_bytes()));
}
