//! Subtraction.

use vstd::prelude::*;
use crate::assembler::Assembler;
use crate::assembler::MOD11;
use crate::assembler::SUB_EAX;
use crate::assembler::SUB_EXT;
use crate::assembler::SUB_I32;
use crate::assembler::SUB_I8;
use crate::assembler::SUB_R;
use crate::assembler::cond_rexb;
use crate::assembler::enc_alu_rr;
use crate::assembler::le32;
use crate::StackOffset;
use crate::X64Reg;

verus! {

/// `sub $imm32, %reg` without a prefix: a sign-extended byte immediate when
/// it fits, else the short `%eax` form or the general four-byte form.
pub open spec fn enc_sub_ir(imm32: i32, reg: X64Reg) -> Seq<u8> {
    if -0x80 <= imm32 <= 0x7f {
        seq![SUB_I8, MOD11 | SUB_EXT | reg.spec_low(), imm32 as u8]
    } else if reg == X64Reg::RAX {
        seq![SUB_EAX] + le32(imm32 as u32)
    } else {
        seq![SUB_I32, MOD11 | SUB_EXT | reg.spec_low()] + le32(imm32 as u32)
    }
}

/// `subl $imm32, %reg`.
pub open spec fn enc_subl_ir(imm32: i32, reg: X64Reg) -> Seq<u8> {
    cond_rexb(reg) + enc_sub_ir(imm32, reg)
}

/// How far subtracting `imm32` from `reg` grows the stack.
pub open spec fn sub_ir_stack(imm32: i32, reg: X64Reg) -> int {
    if reg == X64Reg::RSP {
        imm32 as int
    } else {
        0
    }
}

impl Assembler {
    /// Emits `subl %src, %dest`.
    pub fn emit_subl_rr(&mut self, src: X64Reg, dest: X64Reg)
        requires
            old(self).wf(),
        ensures
            final(self).appended(*old(self), enc_alu_rr(SUB_R, src, dest)),
    {
        self.emit_alu_rr(SUB_R, src, dest);
    }

    /// Emits `subl $imm32, %reg` and returns how much it grows the stack.
    pub fn emit_subl_ir(&mut self, imm32: i32, reg: X64Reg) -> (r: StackOffset)
        requires
            old(self).wf(),
        ensures
            final(self).appended(*old(self), enc_subl_ir(imm32, reg)),
            r.0 == sub_ir_stack(imm32, reg),
    {
        self.emit_cond_rexb(reg);
        if -0x80 <= imm32 && imm32 <= 0x7f {
            self.emit_u8(SUB_I8);
            self.emit_u8(MOD11 | SUB_EXT | reg.low());
            self.emit_u8(imm32 as u8);
        } else {
            if reg == X64Reg::RAX {
                self.emit_u8(SUB_EAX);
            } else {
                self.emit_u8(SUB_I32);
                self.emit_u8(MOD11 | SUB_EXT | reg.low());
            }
            self.emit_u32(imm32 as u32);
        }
        assert(self.bytes() =~= old(self).bytes() + enc_subl_ir(imm32, reg));
        if reg == X64Reg::RSP {
            StackOffset(imm32)
        } else {
            StackOffset(0)
        }
    }
}

} // verus!
