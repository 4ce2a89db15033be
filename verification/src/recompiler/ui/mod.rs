//! The recompiler's operations.

use vstd::prelude::*;
use crate::assembler::trap::enc_ud2;
use crate::recompiler::bind_step;
use crate::recompiler::emit_step;
use crate::recompiler::valid_value;
use crate::recompiler::Recompiler;
use crate::JITValue;

pub mod args;
pub mod control_flow;
pub mod flags;
pub mod jit_values;
pub mod operations;

verus! {

impl Recompiler {
    /// Emits an instruction that traps when it is reached.
    pub fn illegal_insn(&mut self)
        requires
            old(self).wf(),
        ensures
            final(self).stepped(*old(self), emit_step(old(self).state(), enc_ud2())),
    {
        self.assembler.emit_illegal_insn();
    }

    /// Binds `value` to a register, if it is not bound already.
    pub fn bind(&mut self, value: JITValue)
        requires
            old(self).wf(),
            valid_value(value),
        ensures
            final(self).stepped(*old(self), bind_step(old(self).state(), seq![value])),
    {
        self.bind_value(value);
    }
}

} // verus!
