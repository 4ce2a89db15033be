//! Shifts by an immediate.

use vstd::prelude::*;
use crate::assembler::Assembler;
use crate::assembler::SAR;
use crate::assembler::SHIFT;
use crate::assembler::SHL;
use crate::assembler::SHR;
use crate::assembler::cond_rexb;
use crate::X64Reg;

verus! {

/// A 32-bit shift of `%reg` by `imm5`, with `kind` the ModRM opcode extension.
pub open spec fn enc_shift_ir(kind: u8, imm5: u32, reg: X64Reg) -> Seq<u8> {
    cond_rexb(reg) + seq![SHIFT, kind | reg.spec_low(), imm5 as u8]
}

impl Assembler {
    /// Emits `shll $imm5, %reg`.
    pub fn emit_shll_ir(&mut self, imm5: u32, reg: X64Reg)
        requires
            old(self).wf(),
        ensures
            final(self).appended(*old(self), enc_shift_ir(SHL, imm5, reg)),
    {
        self.emit_cond_rexb(reg);
        self.emit_u8(SHIFT);
        self.emit_u8(SHL | reg.low());
        self.emit_u8(imm5 as u8);
        assert(self.bytes() =~= old(self).bytes() + enc_shift_ir(SHL, imm5, reg));
    }

    /// Emits `shrl $imm5, %reg`.
    pub fn emit_shrl_ir(&mut self, imm5: u32, reg: X64Reg)
        requires
            old(self).wf(),
        ensures
            final(self).appended(*old(self), enc_shift_ir(SHR, imm5, reg)),
    {
        self.emit_cond_rexb(reg);
        self.emit_u8(SHIFT);
        self.emit_u8(SHR | reg.low());
        self.emit_u8(imm5 as u8);
        assert(self.bytes() =~= old(self).bytes() + enc_shift_ir(SHR, imm5, reg));
    }

    /// Emits `sarl $imm5, %reg`.
    pub fn emit_sarl_ir(&mut self, imm5: u32, reg: X64Reg)
        requires
            old(self).wf(),
        ensures
            final(self).appended(*old(self), enc_shift_ir(SAR, imm5, reg)),
    {
        self.emit_cond_rexb(reg);
        self.emit_u8(SHIFT);
        self.emit_u8(SAR | reg.low());
        self.emit_u8(imm5 as u8);
        assert(self.bytes() =~= old(self).bytes() + enc_shift_ir(SAR, imm5, reg));
    }
}

} // verus!
