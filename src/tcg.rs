use vstd::prelude::*;

verus! {

/// Number of guest general-purpose registers.
pub const NUM_GPRS: u64 = 32;

/// Whether an IR operand names a guest register or carries an immediate.
#[derive(Debug, Clone, Copy, PartialEq, Eq, Structural)]
pub enum TCGvType {
    Register,
    Immediate,
}

/// An IR operand: a guest register index (0 to 31) or an immediate value.
#[derive(Debug, Clone, Copy, PartialEq, Eq, Structural)]
pub struct TCGv {
    pub t: TCGvType,
    pub value: u64,
}

/// The operations of the IR.
#[derive(Debug, Clone, Copy, PartialEq, Eq, Structural)]
pub enum TCGOpcode {
    ADD,
    ADDI,
    SUB,
    AND,
    OR,
    XOR,
    /// Return through the register pair (x0, x1): the block's result is x10.
    JMP,
    /// Unconditional branch to a label of the block.
    BR,
}

/// One IR operation, or a label marker when `op` is `None`.
///
/// `label` is an index into the block's label table: the target of a `BR`,
/// or the label that a marker defines.
#[derive(Debug, Clone, Copy, PartialEq, Eq, Structural)]
pub struct TCGOp {
    pub op: Option<TCGOpcode>,
    pub arg0: Option<TCGv>,
    pub arg1: Option<TCGv>,
    pub arg2: Option<TCGv>,
    pub label: Option<usize>,
}

/// One guest word and its byte offset in the guest code buffer.
#[derive(Debug, Clone, Copy, PartialEq, Eq, Structural)]
pub struct InstrInfo {
    pub inst: u32,
    pub addr: u64,
}

impl TCGv {
    pub fn new_reg(value: u64) -> (r: TCGv)
        ensures
            r.t == TCGvType::Register,
            r.value == value,
    {
        TCGv { t: TCGvType::Register, value }
    }

    pub fn new_imm(value: u64) -> (r: TCGv)
        ensures
            r.t == TCGvType::Immediate,
            r.value == value,
    {
        TCGv { t: TCGvType::Immediate, value }
    }
}

impl TCGOp {
    /// An operation with two operands.
    pub fn new_2op(op: TCGOpcode, a0: TCGv, a1: TCGv) -> (r: TCGOp)
        ensures
            r == (TCGOp { op: Some(op), arg0: Some(a0), arg1: Some(a1), arg2: None, label: None }),
    {
        TCGOp { op: Some(op), arg0: Some(a0), arg1: Some(a1), arg2: None, label: None }
    }

    /// An operation with three operands.
    pub fn new_3op(op: TCGOpcode, a0: TCGv, a1: TCGv, a2: TCGv) -> (r: TCGOp)
        ensures
            r == (TCGOp { op: Some(op), arg0: Some(a0), arg1: Some(a1), arg2: Some(a2), label: None }),
    {
        TCGOp { op: Some(op), arg0: Some(a0), arg1: Some(a1), arg2: Some(a2), label: None }
    }

    /// A branch to label `l`.
    pub fn new_branch(l: usize) -> (r: TCGOp)
        ensures
            r == (TCGOp { op: Some(TCGOpcode::BR), arg0: None, arg1: None, arg2: None, label: Some(l) }),
    {
        TCGOp { op: Some(TCGOpcode::BR), arg0: None, arg1: None, arg2: None, label: Some(l) }
    }

    /// The marker that defines label `l` at the point where it stands.
    pub fn new_label(l: usize) -> (r: TCGOp)
        ensures
            r == (TCGOp { op: None, arg0: None, arg1: None, arg2: None, label: Some(l) }),
    {
        TCGOp { op: None, arg0: None, arg1: None, arg2: None, label: Some(l) }
    }
}

} // verus!
