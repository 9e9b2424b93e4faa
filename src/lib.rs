//! The translation core of a RISC-V to x86-64 dynamic binary translator.
//!
//! - `tcg`: the intermediate representation, operations on guest registers
//!   and immediates, branches and label markers.
//! - `x86`: the backend that encodes each operation as x86-64 code which
//!   reads and writes guest state at fixed offsets from %rbp.
//! - `label`: a block's label table and the pass that patches branch
//!   displacements once every label is placed.
//! - `block`: translation of a whole block, from IR to patched code.
//! - `emu_env`: the state layout, the guest code as instructions, and the
//!   driver's choice of the next block.
//! - `error`: what can go wrong.

pub mod block;
pub mod emu_env;
pub mod error;
pub mod label;
pub mod tcg;
pub mod x86;
