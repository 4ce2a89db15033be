//! Bit test of two registers.

use vstd::prelude::*;
use crate::assembler::Assembler;
use crate::assembler::TEST;
use crate::assembler::enc_alu_rr;
use crate::X64Reg;

verus! {

impl Assembler {
    /// Emits `testl %src, %dest`, which sets the flags from `%src & %dest`.
    pub fn emit_testl_rr(&mut self, src: X64Reg, dest: X64Reg)
        requires
            old(self).wf(),
        ensures
            final(self).appended(*old(self), enc_alu_rr(TEST, src, dest)),
    {
        self.emit_alu_rr(TEST, src, dest);
    }
}

} // verus!
