//! Comparison.

use vstd::prelude::*;
use crate::assembler::Assembler;
use crate::assembler::CMP;
use crate::assembler::MOD11;
use crate::assembler::cond_rexrb;
use crate::X64Reg;

verus! {

/// `cmpl %reg1, %reg2`.
pub open spec fn enc_cmpl_rr(reg1: X64Reg, reg2: X64Reg) -> Seq<u8> {
    cond_rexrb(reg1, reg2) + seq![CMP, MOD11 | reg1.spec_low() << 3 | reg2.spec_low()]
}

impl Assembler {
    /// Emits `cmpl %reg1, %reg2`, which sets the flags from `%reg2 - %reg1`.
    pub fn emit_cmpl_rr(&mut self, reg1: X64Reg, reg2: X64Reg)
        requires
            old(self).wf(),
        ensures
            final(self).appended(*old(self), enc_cmpl_rr(reg1, reg2)),
    {
        self.emit_cond_rexrb(reg1, reg2);
        self.emit_u8(CMP);
        self.emit_u8(MOD11 | reg1.low() << 3 | reg2.low());
        assert(self.bytes() =~= old(self).bytes() + enc_cmpl_rr(reg1, reg2));
    }
}

} // verus!
