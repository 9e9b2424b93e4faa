use tcg_jit::block::translate_block;
use tcg_jit::emu_env::RiscvInstId::{
    ADD, ADDI, AND, AUIPC, BEQ, BGE, BGEU, BLT, BLTU, BNE, CSRRW, ECALL, JAL, JALR, LUI, OR, ORI,
    SUB, XOR, XORI, ANDI,
};
use tcg_jit::emu_env::{block_length, is_block_end, EmuEnv, RiscvInstId};
use tcg_jit::error::EmuError;
use tcg_jit::tcg::{InstrInfo, TCGOp, TCGOpcode, TCGv};

fn env_with(code: Vec<u8>) -> EmuEnv {
    let mut env = EmuEnv::new();
    env.m_guestcode = code;
    env.gen_tcg();
    env
}

#[test]
fn guest_code_splits_into_words() {
    let env = env_with(vec![0x93, 0x02, 0xa0, 0x02, 0x67, 0x80, 0x00, 0x00, 0xaa]);
    assert_eq!(
        env.m_inst_vec,
        vec![InstrInfo { inst: 0x02a0_0293, addr: 0 }, InstrInfo { inst: 0x0000_8067, addr: 4 }]
    );
}

#[test]
fn guest_words_are_appended() {
    let mut env = env_with(vec![1, 0, 0, 0]);
    env.m_guestcode = vec![2, 0, 0, 0, 3, 0, 0, 0];
    env.gen_tcg();
    assert_eq!(
        env.m_inst_vec,
        vec![
            InstrInfo { inst: 1, addr: 0 },
            InstrInfo { inst: 2, addr: 0 },
            InstrInfo { inst: 3, addr: 4 },
        ]
    );
}

#[test]
fn locate_finds_program_counter() {
    let mut env = env_with(vec![0; 12]);
    env.m_pc = 8;
    assert_eq!(env.locate(), Ok(2));
    env.m_pc = 12;
    assert_eq!(env.locate(), Err(EmuError::ProgramCounterOutOfRange));
    env.m_pc = 2;
    assert_eq!(env.locate(), Err(EmuError::ProgramCounterOutOfRange));
}

#[test]
fn block_stops_after_first_control_instruction() {
    let d = vec![Some(ADDI), Some(ADD), Some(XOR), Some(JAL), Some(ADDI), Some(SUB)];
    assert_eq!(block_length(&d, 0), Ok(4));
    assert_eq!(block_length(&d, 3), Ok(1));
    assert_eq!(block_length(&d, 4), Ok(2));
    for id in [JALR, JAL, BEQ, BNE, BGE, BGEU, BLT, BLTU, ECALL] {
        assert!(is_block_end(id));
        assert_eq!(block_length(&vec![Some(ADDI), Some(id), Some(ADD)], 0), Ok(2));
    }
    for id in [LUI, AUIPC, ADDI, ANDI, ORI, XORI, ADD, SUB, AND, OR, XOR, CSRRW] {
        assert!(!is_block_end(id));
    }
}

#[test]
fn unknown_word_fails_with_unsupported_instruction() {
    let d = vec![Some(ADDI), None, Some(JAL)];
    assert_eq!(block_length(&d, 0), Err(EmuError::UnsupportedInstruction));
    // a word after the block's end is never looked at
    let e = vec![Some(ADDI), Some(JALR), None];
    assert_eq!(block_length(&e, 0), Ok(2));
}

#[test]
fn block_range_combines_locate_and_length() {
    let mut env = env_with(vec![0; 16]);
    let d = vec![Some(ADDI), Some(BEQ), Some(ADD), None];
    env.m_pc = 4;
    assert_eq!(env.block_range(&d), Ok((1, 1)));
    env.m_pc = 8;
    assert_eq!(env.block_range(&d), Err(EmuError::UnsupportedInstruction));
    env.m_pc = 20;
    assert_eq!(env.block_range(&d), Err(EmuError::ProgramCounterOutOfRange));
}

#[test]
fn register_offsets_follow_the_layout() {
    let env = EmuEnv::new();
    for r in 0..32u64 {
        let first = env.calc_gpr_relat_address(r);
        assert_eq!(first, 8 + 8 * r as isize);
        assert_eq!(env.calc_gpr_relat_address(r), first);
    }
    assert_eq!(env.calc_pc_address(), 264);
    assert_eq!(env.calc_csr_relat_address(0), Ok(272));
    assert_eq!(env.calc_csr_relat_address(0x300), Ok(272 + 8 * 0x300));
    assert_eq!(env.calc_csr_relat_address(1023), Ok(272 + 8 * 1023));
    assert_eq!(env.calc_csr_relat_address(1024), Err(EmuError::UnsupportedInstruction));
    assert_eq!(env.calc_helper_func_relat_address(), 8464);
    assert_eq!(env.calc_epilogue_address(0x1000, 0x3000), -0x1ff1);
    assert_eq!(env.calc_epilogue_address(0x5000, 0x3000), 0x200f);
    assert_eq!(env.epilogue_address(0x1000), 0x100f);
}

#[test]
fn trampoline_is_prologue_then_epilogue() {
    let env = EmuEnv::new();
    assert_eq!(
        env.host_trampoline(),
        vec![
            0x55, 0x54, 0x51, 0x48, 0x8b, 0xef, 0x48, 0x81, 0xc4, 0x80, 0xfb, 0xff, 0xff, 0xff,
            0xe6, 0x48, 0x81, 0xc4, 0x80, 0x04, 0x00, 0x00, 0x59, 0x5b, 0x5d, 0xc3,
        ]
    );
}

#[test]
fn addi_x5_x0_42_stores_42_into_x5() {
    // addi x5, x0, 42
    let mut env = env_with(vec![0x93, 0x02, 0xa0, 0x02]);
    env.m_pc = 0;
    let decoded = vec![Some(RiscvInstId::ADDI)];
    let (start, n) = env.block_range(&decoded).unwrap();
    assert_eq!((start, n), (0, 1));
    let word = env.m_inst_vec[0].inst;
    let rd = ((word >> 7) & 0x1f) as u64;
    let rs1 = ((word >> 15) & 0x1f) as u64;
    let imm = (word as i32 >> 20) as i64 as u64;
    let ops = vec![TCGOp::new_3op(TCGOpcode::ADDI, TCGv::new_reg(rd), TCGv::new_reg(rs1), TCGv::new_imm(imm))];
    let exit = env.epilogue_address(0x0000_7f00_0000_1000);
    let code = translate_block(&ops, 0, exit).unwrap();
    assert_eq!(
        code,
        vec![
            0x48, 0xc7, 0x85, 0x30, 0, 0, 0, 0x2a, 0, 0, 0, 0x48, 0xb9, 0x0f, 0x10, 0, 0, 0x00,
            0x7f, 0, 0, 0xff, 0xe1,
        ]
    );
    // neither a load nor a store touches x0's slot
    assert!(!code.windows(4).any(|w| w == [0x08, 0, 0, 0]));
}
