//! Division.

use vstd::prelude::*;
use crate::assembler::Assembler;
use crate::assembler::DIV;
use crate::assembler::DIV_EXT;
use crate::assembler::IDIV_EXT;
use crate::assembler::MOD11;
use crate::assembler::cond_rexb;
use crate::X64Reg;

verus! {

/// `idivl %reg`.
pub open spec fn enc_idivl_r(reg: X64Reg) -> Seq<u8> {
    cond_rexb(reg) + seq![DIV, MOD11 | IDIV_EXT | reg.spec_low()]
}

/// `divl %reg`.
pub open spec fn enc_divl_r(reg: X64Reg) -> Seq<u8> {
    cond_rexb(reg) + seq![DIV, MOD11 | DIV_EXT | reg.spec_low()]
}

impl Assembler {
    /// Emits `idivl %reg`: signed division of `%edx:%eax` by `%reg`.
    pub fn emit_idivl_r(&mut self, reg: X64Reg)
        requires
            old(self).wf(),
        ensures
            final(self).appended(*old(self), enc_idivl_r(reg)),
    {
        self.emit_cond_rexb(reg);
        self.emit_u8(DIV);
        self.emit_u8(MOD11 | IDIV_EXT | reg.low());
        assert(self.bytes() =~= old(self).bytes() + enc_idivl_r(reg));
    }

    /// Emits `divl %reg`: unsigned division of `%edx:%eax` by `%reg`.
    pub fn emit_divl_r(&mut self, reg: X64Reg)
        requires
            old(self).wf(),
        ensures
            final(self).appended(*old(self), enc_divl_r(reg)),
    {
        self.emit_cond_rexb(reg);
        self.emit_u8(DIV);
        self.emit_u8(MOD11 | DIV_EXT | reg.low());
        assert(self.bytes() =~= old(self).bytes() + enc_divl_r(reg));
    }
}

} // verus!
