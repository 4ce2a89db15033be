//! Bitwise and.

use vstd::prelude::*;
use crate::assembler::Assembler;
use crate::assembler::AND_EAX;
use crate::assembler::AND_EXT;
use crate::assembler::AND_I32;
use crate::assembler::AND_R;
use crate::assembler::MOD11;
use crate::assembler::cond_rexb;
use crate::assembler::enc_alu_rr;
use crate::assembler::le32;
use crate::X64Reg;

verus! {

/// `andl $imm32, %reg`: the short `%eax` form, or the general form.
pub open spec fn enc_andl_ir(imm32: u32, reg: X64Reg) -> Seq<u8> {
    if reg == X64Reg::RAX {
        seq![AND_EAX] + le32(imm32)
    } else {
        cond_rexb(reg) + seq![AND_I32, MOD11 | AND_EXT | reg.spec_low()] + le32(imm32)
    }
}

impl Assembler {
    /// Emits `andl %src, %dest`.
    pub fn emit_andl_rr(&mut self, src: X64Reg, dest: X64Reg)
        requires
            old(self).wf(),
        ensures
            final(self).appended(*old(self), enc_alu_rr(AND_R, src, dest)),
    {
        self.emit_alu_rr(AND_R, src, dest);
    }

    /// Emits `andl $imm32, %reg`.
    pub fn emit_andl_ir(&mut self, imm32: u32, reg: X64Reg)
        requires
            old(self).wf(),
        ensures
            final(self).appended(*old(self), enc_andl_ir(imm32, reg)),
    {
        if reg == X64Reg::RAX {
            self.emit_u8(AND_EAX);
        } else {
            self.emit_cond_rexb(reg);
            self.emit_u8(AND_I32);
            self.emit_u8(MOD11 | AND_EXT | reg.low());
        }
        self.emit_u32(imm32);
        assert(self.bytes() =~= old(self).bytes() + enc_andl_ir(imm32, reg));
    }
}

} // verus!
