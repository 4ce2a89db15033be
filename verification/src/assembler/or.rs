//! Bitwise or.

use vstd::prelude::*;
use crate::assembler::Assembler;
use crate::assembler::OR_EAX;
use crate::assembler::OR_I32;
use crate::assembler::OR_R;
use crate::assembler::enc_alu_rr;
use crate::assembler::cond_rexb;
use crate::assembler::le32;
use crate::X64Reg;

verus! {

/// `orl $imm32, %reg`: the short `%eax` form, or the general form.
pub open spec fn enc_orl_ir(imm32: u32, reg: X64Reg) -> Seq<u8> {
    if reg == X64Reg::RAX {
        seq![OR_EAX] + le32(imm32)
    } else {
        cond_rexb(reg) + seq![OR_I32, 0xc8 | reg.spec_low()] + le32(imm32)
    }
}

impl Assembler {
    /// Emits `orl %src, %dest`.
    pub fn emit_orl_rr(&mut self, src: X64Reg, dest: X64Reg)
        requires
            old(self).wf(),
        ensures
            final(self).appended(*old(self), enc_alu_rr(OR_R, src, dest)),
    {
        self.emit_alu_rr(OR_R, src, dest);
    }

    /// Emits `orl $imm32, %reg`.
    pub fn emit_orl_ir(&mut self, imm32: u32, reg: X64Reg)
        requires
            old(self).wf(),
        ensures
            final(self).appended(*old(self), enc_orl_ir(imm32, reg)),
    {
        if reg == X64Reg::RAX {
            self.emit_u8(OR_EAX);
        } else {
            self.emit_cond_rexb(reg);
            self.emit_u8(OR_I32);
            self.emit_u8(0xc8 | reg.low());
        }
        self.emit_u32(imm32);
        assert(self.bytes() =~= old(self).bytes() + enc_orl_ir(imm32, reg));
    }
}

} // verus!
