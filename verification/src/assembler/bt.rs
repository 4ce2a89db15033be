//! Bit test.

use vstd::prelude::*;
use crate::assembler::Assembler;
use crate::assembler::cond_rexb;
use crate::X64Reg;

verus! {

/// `btl $imm5, %reg`.
pub open spec fn enc_btl_ir(imm5: u32, reg: X64Reg) -> Seq<u8> {
    cond_rexb(reg) + seq![0x0fu8, 0xbau8, 0xe0 | reg.spec_low(), imm5 as u8]
}

impl Assembler {
    /// Emits `btl $imm5, %reg`, which copies bit `imm5` of `%reg` into the
    /// carry flag. The bit index must be below 32.
    pub fn emit_btl_ir(&mut self, imm5: u32, reg: X64Reg)
        requires
            old(self).wf(),
            imm5 < 32,
        ensures
            final(self).appended(*old(self), enc_btl_ir(imm5, reg)),
    {
        self.emit_cond_rexb(reg);
        self.emit_u8(0x0f);
        self.emit_u8(0xba);
        self.emit_u8(0xe0 | reg.low());
        self.emit_u8(imm5 as u8);
        assert(self.bytes() =~= old(self).bytes() + enc_btl_ir(imm5, reg));
    }
}

} // verus!
