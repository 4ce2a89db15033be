//! Bitwise exclusive or.

use vstd::prelude::*;
use crate::assembler::Assembler;
use crate::assembler::XOR;
use crate::assembler::enc_alu_rr;
use crate::X64Reg;

verus! {

impl Assembler {
    /// Emits `xorl %src, %dest`.
    pub fn emit_xorl_rr(&mut self, src: X64Reg, dest: X64Reg)
        requires
            old(self).wf(),
        ensures
            final(self).appended(*old(self), enc_alu_rr(XOR, src, dest)),
    {
        self.emit_alu_rr(XOR, src, dest);
    }
}

} // verus!
