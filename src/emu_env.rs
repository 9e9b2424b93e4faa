use vstd::prelude::*;

use crate::error::EmuError;
use crate::tcg::InstrInfo;

verus! {

// The state structure's layout, as byte offsets from its base, where a
// one-word sentinel sits: 32 general-purpose registers, the program
// counter, the CSR bank, then the helper-function table.
/// Byte offset of register x0 from the state structure's base.
pub const GPR_OFFSET: u64 = 8;

/// Byte offset of the program counter.
pub const PC_OFFSET: u64 = GPR_OFFSET + 8 * 32;

/// Byte offset of the first CSR.
pub const CSR_OFFSET: u64 = PC_OFFSET + 8;

/// Number of CSRs in the bank.
pub const NUM_CSRS: u64 = 1024;

/// Byte offset of the helper-function table.
pub const HELPER_OFFSET: u64 = CSR_OFFSET + 8 * NUM_CSRS;

/// Length of the trampoline's prologue.
pub const PROLOGUE_LEN: usize = 15;

/// Length of the trampoline's epilogue.
pub const EPILOGUE_LEN: usize = 11;

/// The identifiers that the guest decoder hands out.
#[derive(Debug, Clone, Copy, PartialEq, Eq, Structural)]
pub enum RiscvInstId {
    LUI,
    AUIPC,
    JAL,
    JALR,
    BEQ,
    BNE,
    BLT,
    BGE,
    BLTU,
    BGEU,
    ADDI,
    ANDI,
    ORI,
    XORI,
    ADD,
    SUB,
    AND,
    OR,
    XOR,
    ECALL,
    CSRRW,
}

/// The instructions that end a translation block: branches, jumps and the
/// system call.
pub open spec fn ends_block(id: RiscvInstId) -> bool {
    id == RiscvInstId::JALR || id == RiscvInstId::JAL || id == RiscvInstId::BEQ || id
        == RiscvInstId::BNE || id == RiscvInstId::BGE || id == RiscvInstId::BGEU || id
        == RiscvInstId::BLT || id == RiscvInstId::BLTU || id == RiscvInstId::ECALL
}

/// Whether `id` ends a translation block.
pub fn is_block_end(id: RiscvInstId) -> (r: bool)
    ensures
        r == ends_block(id),
{
    id == RiscvInstId::JALR || id == RiscvInstId::JAL || id == RiscvInstId::BEQ || id
        == RiscvInstId::BNE || id == RiscvInstId::BGE || id == RiscvInstId::BGEU || id
        == RiscvInstId::BLT || id == RiscvInstId::BLTU || id == RiscvInstId::ECALL
}

/// The little-endian word at byte `i` of `code`.
pub open spec fn word_at(code: Seq<u8>, i: int) -> u32 {
    (code[i] as u32) | ((code[i + 1] as u32) << 8u32) | ((code[i + 2] as u32) << 16u32) | ((
    code[i + 3] as u32) << 24u32)
}

/// The guest code as instructions: one for each whole 4-byte word, at its
/// byte offset.
pub open spec fn words_of(code: Seq<u8>) -> Seq<InstrInfo> {
    Seq::new(code.len() / 4, |k: int| InstrInfo { inst: word_at(code, 4 * k), addr: (4 * k) as u64 })
}

/// The bytes that the trampoline holds before the jump into the block:
/// push %rbp, %rsp and %rcx; %rbp := the state's base (first argument);
/// reserve 0x488 bytes of stack; jump to the block (second argument).
pub open spec fn prologue_bytes() -> Seq<u8> {
    seq![
        0x55u8, 0x54u8, 0x51u8, 0x48u8, 0x8bu8, 0xefu8, 0x48u8, 0x81u8, 0xc4u8, 0x80u8,
        0xfbu8, 0xffu8, 0xffu8, 0xffu8, 0xe6u8,
    ]
}

/// The epilogue to which a block returns: release the stack, pop the saved
/// registers, return %eax.
pub open spec fn epilogue_bytes() -> Seq<u8> {
    seq![0x48u8, 0x81u8, 0xc4u8, 0x80u8, 0x04u8, 0x00u8, 0x00u8, 0x59u8, 0x5bu8, 0x5du8, 0xc3u8]
}

/// The translation-time state of the emulator: the guest code, its
/// instructions, the program counter from which the next block starts, and
/// the trampoline around generated code.
pub struct EmuEnv {
    pub m_pc: u64,
    pub m_guestcode: Vec<u8>,
    pub m_inst_vec: Vec<InstrInfo>,
    pub m_host_prologue: Vec<u8>,
    pub m_host_epilogue: Vec<u8>,
}

impl EmuEnv {
    /// The fixed trampoline is in place.
    pub open spec fn wf(&self) -> bool {
        self.m_host_prologue@ == prologue_bytes() && self.m_host_epilogue@ == epilogue_bytes()
    }

    /// No guest code, no instructions, the program counter at 0.
    pub fn new() -> (r: EmuEnv)
        ensures
            r.wf(),
            r.m_pc == 0,
            r.m_guestcode@.len() == 0,
            r.m_inst_vec@.len() == 0,
    {
        let mut p: Vec<u8> = Vec::new();
        p.push(0x55);  // pushq %rbp
        p.push(0x54);  // pushq %rsp
        p.push(0x51);  // pushq %rcx
        p.push(0x48);  // movq %rdi,%rbp
        p.push(0x8b);
        p.push(0xef);
        p.push(0x48);  // addq $-0x488,%rsp
        p.push(0x81);
        p.push(0xc4);
        p.push(0x80);
        p.push(0xfb);
        p.push(0xff);
        p.push(0xff);
        p.push(0xff);  // jmpq *%rsi
        p.push(0xe6);
        let mut e: Vec<u8> = Vec::new();
        e.push(0x48);  // addq $0x488,%rsp
        e.push(0x81);
        e.push(0xc4);
        e.push(0x80);
        e.push(0x04);
        e.push(0x00);
        e.push(0x00);
        e.push(0x59);  // popq %rcx
        e.push(0x5b);  // popq %rbx
        e.push(0x5d);  // popq %rbp
        e.push(0xc3);  // retq
        assert(p@ =~= prologue_bytes());
        assert(e@ =~= epilogue_bytes());
        EmuEnv {
            m_pc: 0,
            m_guestcode: Vec::new(),
            m_inst_vec: Vec::new(),
            m_host_prologue: p,
            m_host_epilogue: e,
        }
    }
    /// Appends the guest code's instructions to `m_inst_vec`: one for each
    /// whole 4-byte word, read little-endian, at its byte offset.
    pub fn gen_tcg(&mut self)
        ensures
            final(self).m_inst_vec@ == old(self).m_inst_vec@ + words_of(old(self).m_guestcode@),
            final(self).m_guestcode@ == old(self).m_guestcode@,
            final(self).m_pc == old(self).m_pc,
            final(self).m_host_prologue@ == old(self).m_host_prologue@,
            final(self).m_host_epilogue@ == old(self).m_host_epilogue@,
    {
        let len = self.m_guestcode.len();
        let n = len / 4;
        let mut k: usize = 0;
        while k < n
            invariant
                len == self.m_guestcode@.len(),
                n == len / 4,
                k <= n,
                self.m_guestcode@ == old(self).m_guestcode@,
                self.m_pc == old(self).m_pc,
                self.m_host_prologue@ == old(self).m_host_prologue@,
                self.m_host_epilogue@ == old(self).m_host_epilogue@,
                self.m_inst_vec@ =~= old(self).m_inst_vec@ + words_of(self.m_guestcode@).take(
                    k as int,
                ),
            decreases n - k,
        {
            let i = 4 * k;
            let code = &self.m_guestcode;
            let inst: u32 = (code[i] as u32) | ((code[i + 1] as u32) << 8u32) | ((code[i + 2] as u32)
                << 16u32) | ((code[i + 3] as u32) << 24u32);
            self.m_inst_vec.push(InstrInfo { inst, addr: i as u64 });
            k = k + 1;
        }
        assert(words_of(self.m_guestcode@).take(n as int) =~= words_of(self.m_guestcode@));
    }

    /// The index of the first instruction whose address is the program
    /// counter; `ProgramCounterOutOfRange` where there is none.
    pub fn locate(&self) -> (r: Result<usize, EmuError>)
        ensures
            r is Ok ==> r->Ok_0 < self.m_inst_vec@.len() && self.m_inst_vec@[r->Ok_0 as int].addr
                == self.m_pc && forall|k: int|
                0 <= k < r->Ok_0 ==> (#[trigger] self.m_inst_vec@[k]).addr != self.m_pc,
            r is Err ==> r == Err::<usize, EmuError>(EmuError::ProgramCounterOutOfRange)
                && forall|k: int|
                0 <= k < self.m_inst_vec@.len() ==> (#[trigger] self.m_inst_vec@[k]).addr
                    != self.m_pc,
    {
        let mut k: usize = 0;
        while k < self.m_inst_vec.len()
            invariant
                k <= self.m_inst_vec@.len(),
                forall|j: int| 0 <= j < k ==> (#[trigger] self.m_inst_vec@[j]).addr != self.m_pc,
            decreases self.m_inst_vec@.len() - k,
        {
            if self.m_inst_vec[k].addr == self.m_pc {
                return Ok(k);
            }
            k = k + 1;
        }
        Err(EmuError::ProgramCounterOutOfRange)
    }

    /// The trampoline's bytes: the prologue, then the epilogue.
    pub fn host_trampoline(&self) -> (r: Vec<u8>)
        ensures
            r@ == self.m_host_prologue@ + self.m_host_epilogue@,
    {
        let mut v: Vec<u8> = Vec::new();
        let mut k: usize = 0;
        while k < self.m_host_prologue.len()
            invariant
                k <= self.m_host_prologue@.len(),
                v@ =~= self.m_host_prologue@.take(k as int),
            decreases self.m_host_prologue@.len() - k,
        {
            v.push(self.m_host_prologue[k]);
            k = k + 1;
        }
        let mut k: usize = 0;
        while k < self.m_host_epilogue.len()
            invariant
                k <= self.m_host_epilogue@.len(),
                v@ =~= self.m_host_prologue@ + self.m_host_epilogue@.take(k as int),
            decreases self.m_host_epilogue@.len() - k,
        {
            v.push(self.m_host_epilogue[k]);
            k = k + 1;
        }
        v
    }

    /// Signed byte offset of the epilogue from the start of the block
    /// region, given where the trampoline (`pe_addr`) and the block region
    /// (`tb_addr`) were placed.
    pub fn calc_epilogue_address(&self, pe_addr: u64, tb_addr: u64) -> (r: i128)
        ensures
            r == pe_addr - tb_addr + self.m_host_prologue@.len(),
            tb_addr + r == pe_addr + self.m_host_prologue@.len(),
    {
        pe_addr as i128 - tb_addr as i128 + self.m_host_prologue.len() as i128
    }

    /// Absolute address of the epilogue, given the address at which the
    /// trampoline was placed. A block ends with a jump to this address, so
    /// that where the two regions lie does not bound the jump.
    pub fn epilogue_address(&self, pe_addr: u64) -> (r: u64)
        requires
            pe_addr + self.m_host_prologue@.len() <= u64::MAX,
        ensures
            r == pe_addr + self.m_host_prologue@.len(),
    {
        pe_addr + self.m_host_prologue.len() as u64
    }

    /// Byte offset of guest register `gpr_addr` from the state's base.
    pub fn calc_gpr_relat_address(&self, gpr_addr: u64) -> (r: isize)
        requires
            gpr_addr < 32,
        ensures
            r == GPR_OFFSET + 8 * gpr_addr,
    {
        (GPR_OFFSET + 8 * gpr_addr) as isize
    }

    /// Byte offset of the program counter from the state's base.
    pub fn calc_pc_address(&self) -> (r: isize)
        ensures
            r == PC_OFFSET,
    {
        PC_OFFSET as isize
    }

    /// Byte offset of CSR `csr_addr` from the state's base; an address
    /// beyond the bank is an instruction that is not supported.
    pub fn calc_csr_relat_address(&self, csr_addr: u64) -> (r: Result<isize, EmuError>)
        ensures
            csr_addr < NUM_CSRS ==> r == Ok::<isize, EmuError>((CSR_OFFSET + 8 * csr_addr) as isize),
            csr_addr >= NUM_CSRS ==> r == Err::<isize, EmuError>(EmuError::UnsupportedInstruction),
    {
        if csr_addr >= NUM_CSRS {
            return Err(EmuError::UnsupportedInstruction);
        }
        Ok((CSR_OFFSET + 8 * csr_addr) as isize)
    }

    /// Byte offset of the helper-function table from the state's base.
    pub fn calc_helper_func_relat_address(&self) -> (r: isize)
        ensures
            r == HELPER_OFFSET,
    {
        HELPER_OFFSET as isize
    }
}

/// Every decoded instruction in `decoded[start..end]` is known and none ends
/// the block.
pub open spec fn runs_straight(decoded: Seq<Option<RiscvInstId>>, start: int, end: int) -> bool {
    forall|j: int|
        start <= j < end ==> (#[trigger] decoded[j]) is Some && !ends_block(decoded[j]->0)
}

/// How many instructions from `start` the block takes, given each
/// instruction's decoded identifier (`None` where the decoder knows no
/// match): up to and including the first that ends a block, or to the end of
/// the code. Where an unknown word comes first, the block fails with
/// `UnsupportedInstruction` before anything is generated.
pub fn block_length(decoded: &Vec<Option<RiscvInstId>>, start: usize) -> (r: Result<
    usize,
    EmuError,
>)
    requires
        start < decoded@.len(),
    ensures
        r is Ok ==> {
            let n = r->Ok_0 as int;
            &&& 1 <= n
            &&& start + n <= decoded@.len()
            &&& runs_straight(decoded@, start as int, start + n - 1)
            &&& decoded@[start + n - 1] is Some
            &&& (ends_block(decoded@[start + n - 1]->0) || start + n == decoded@.len())
        },
        r is Err ==> r == Err::<usize, EmuError>(EmuError::UnsupportedInstruction) && exists|j: int|
            start <= j < decoded@.len() && (#[trigger] decoded@[j]) is None && runs_straight(
                decoded@,
                start as int,
                j,
            ),
{
    let mut k: usize = start;
    while k < decoded.len()
        invariant
            start <= k <= decoded@.len(),
            runs_straight(decoded@, start as int, k as int),
        decreases decoded@.len() - k,
    {
        match decoded[k] {
            None => {
                assert(decoded@[k as int] is None);
                return Err(EmuError::UnsupportedInstruction);
            },
            Some(id) => {
                if is_block_end(id) {
                    return Ok(k - start + 1);
                }
            },
        }
        k = k + 1;
    }
    Ok(k - start)
}

impl EmuEnv {
    /// The next block as a first instruction and a count: the instruction at
    /// the program counter, then as `block_length` decides over `decoded`,
    /// the identifier of each instruction of `m_inst_vec`.
    pub fn block_range(&self, decoded: &Vec<Option<RiscvInstId>>) -> (r: Result<
        (usize, usize),
        EmuError,
    >)
        requires
            decoded@.len() == self.m_inst_vec@.len(),
        ensures
            (forall|k: int|
                0 <= k < self.m_inst_vec@.len() ==> (#[trigger] self.m_inst_vec@[k]).addr
                    != self.m_pc) ==> r == Err::<(usize, usize), EmuError>(
                EmuError::ProgramCounterOutOfRange,
            ),
            r is Ok ==> {
                let (start, n) = r->Ok_0;
                &&& start < self.m_inst_vec@.len()
                &&& self.m_inst_vec@[start as int].addr == self.m_pc
                &&& forall|k: int|
                    0 <= k < start ==> (#[trigger] self.m_inst_vec@[k]).addr != self.m_pc
                &&& 1 <= n
                &&& start + n <= decoded@.len()
                &&& runs_straight(decoded@, start as int, start + n - 1)
                &&& decoded@[start + n - 1] is Some
                &&& (ends_block(decoded@[start + n - 1]->0) || start + n == decoded@.len())
            },
            r == Err::<(usize, usize), EmuError>(EmuError::ProgramCounterOutOfRange) ==> forall|
                k: int,
            |
                0 <= k < self.m_inst_vec@.len() ==> (#[trigger] self.m_inst_vec@[k]).addr
                    != self.m_pc,
            r is Err && r != Err::<(usize, usize), EmuError>(EmuError::ProgramCounterOutOfRange)
                ==> r == Err::<(usize, usize), EmuError>(EmuError::UnsupportedInstruction)
                && exists|start: int, j: int|
                0 <= start <= j < decoded@.len() && (#[trigger] self.m_inst_vec@[start]).addr
                    == self.m_pc && (forall|k: int|
                    0 <= k < start ==> (#[trigger] self.m_inst_vec@[k]).addr != self.m_pc)
                    && (#[trigger] decoded@[j]) is None && runs_straight(decoded@, start, j),
    {
        let start = match self.locate() {
            Ok(s) => s,
            Err(e) => {
                return Err(e);
            },
        };
        match block_length(decoded, start) {
            Ok(n) => Ok((start, n)),
            Err(e) => Err(e),
        }
    }
}

} // verus!
