//! `add` instructions.

use vstd::prelude::*;
use std::ops::Neg;
use crate::assembler::ADD_EAX;
use crate::assembler::ADD_I32;
use crate::assembler::ADD_I8;
use crate::assembler::ADD_R;
use crate::assembler::Assembler;
use crate::assembler::MOD11;
use crate::assembler::REX;
use crate::assembler::REXW;
use crate::assembler::cond_rexb;
use crate::assembler::cond_rexrb;
use crate::assembler::le32;
use crate::assembler::spec_rexb;
use crate::StackOffset;
use crate::X64Reg;

verus! {

/// `add %src, %dest` without a prefix.
pub open spec fn enc_add_rr(src: X64Reg, dest: X64Reg) -> Seq<u8> {
    seq![ADD_R, MOD11 | src.spec_low() << 3 | dest.spec_low()]
}

/// `addl %src, %dest`.
pub open spec fn enc_addl_rr(src: X64Reg, dest: X64Reg) -> Seq<u8> {
    cond_rexrb(src, dest) + enc_add_rr(src, dest)
}

/// `add $imm32, %reg` without a prefix: a sign-extended byte immediate
/// when it fits, else the short `%eax` form or the general four-byte form.
pub open spec fn enc_add_ir(imm32: i32, reg: X64Reg) -> Seq<u8> {
    if -0x80 <= imm32 <= 0x7f {
        seq![ADD_I8, MOD11 | reg.spec_low(), imm32 as u8]
    } else if reg == X64Reg::RAX {
        seq![ADD_EAX] + le32(imm32 as u32)
    } else {
        seq![ADD_I32, MOD11 | reg.spec_low()] + le32(imm32 as u32)
    }
}

/// `addl $imm32, %reg`.
pub open spec fn enc_addl_ir(imm32: i32, reg: X64Reg) -> Seq<u8> {
    cond_rexb(reg) + enc_add_ir(imm32, reg)
}

/// `addq $imm32, %reg`.
pub open spec fn enc_addq_ir(imm32: i32, reg: X64Reg) -> Seq<u8> {
    seq![REX | REXW | spec_rexb(reg)] + enc_add_ir(imm32, reg)
}

/// How far adding `imm32` to `reg` grows the stack: adding to `%rsp`
/// shrinks it by `imm32`; adding to any other register leaves it alone.
pub open spec fn add_ir_stack(imm32: i32, reg: X64Reg) -> int {
    if reg == X64Reg::RSP {
        -imm32
    } else {
        0
    }
}

/// Whether the stack change of adding `imm32` to `reg` is itself an `i32`.
pub open spec fn add_ir_ok(imm32: i32, reg: X64Reg) -> bool {
    reg == X64Reg::RSP ==> imm32 != i32::MIN
}

impl Assembler {
    /// Emits `addl %src, %dest`. `%rsp` is not accepted as the source, since
    /// its value at run time is not a fixed stack offset.
    pub fn emit_addl_rr(&mut self, src: X64Reg, dest: X64Reg)
        requires
            old(self).wf(),
            src != X64Reg::RSP,
        ensures
            final(self).appended(*old(self), enc_addl_rr(src, dest)),
    {
        self.emit_cond_rexrb(src, dest);
        self.emit_add_rr(src, dest);
        assert(self.bytes() =~= old(self).bytes() + enc_addl_rr(src, dest));
    }

    /// Emits the `add %src, %dest` opcode and ModRM byte, with no prefix.
    pub fn emit_add_rr(&mut self, src: X64Reg, dest: X64Reg)
        requires
            old(self).wf(),
        ensures
            final(self).appended(*old(self), enc_add_rr(src, dest)),
    {
        self.emit_u8(ADD_R);
        self.emit_u8(MOD11 | src.low() << 3 | dest.low());
        assert(self.bytes() =~= old(self).bytes() + enc_add_rr(src, dest));
    }

    /// Emits `addl $imm32, %reg` and returns how much it grows the stack.
    pub fn emit_addl_ir(&mut self, imm32: i32, reg: X64Reg) -> (r: StackOffset)
        requires
            old(self).wf(),
            add_ir_ok(imm32, reg),
        ensures
            final(self).appended(*old(self), enc_addl_ir(imm32, reg)),
            r.0 == add_ir_stack(imm32, reg),
    {
        self.emit_cond_rexb(reg);
        let r = self.emit_add_ir(imm32, reg);
        assert(self.bytes() =~= old(self).bytes() + enc_addl_ir(imm32, reg));
        r
    }

    /// Emits `addq $imm32, %reg` and returns how much it grows the stack.
    pub fn emit_addq_ir(&mut self, imm32: i32, reg: X64Reg) -> (r: StackOffset)
        requires
            old(self).wf(),
            add_ir_ok(imm32, reg),
        ensures
            final(self).appended(*old(self), enc_addq_ir(imm32, reg)),
            r.0 == add_ir_stack(imm32, reg),
    {
        let prefix = REX | REXW | Assembler::rexb(reg);
        self.emit_u8(prefix);
        let r = self.emit_add_ir(imm32, reg);
        assert(self.bytes() =~= old(self).bytes() + enc_addq_ir(imm32, reg));
        r
    }

    /// Emits the opcode and operands of an addition of `imm32` to `reg`,
    /// without a prefix: the short form for an immediate that fits in a
    /// byte, else the four-byte form, which has its own opcode for `%rax`.
    pub fn emit_add_ir(&mut self, imm32: i32, reg: X64Reg) -> (r: StackOffset)
        requires
            old(self).wf(),
            add_ir_ok(imm32, reg),
        ensures
            final(self).appended(*old(self), enc_add_ir(imm32, reg)),
            r.0 == add_ir_stack(imm32, reg),
    {
        if -0x80 <= imm32 && imm32 <= 0x7f {
            self.emit_u8(ADD_I8);
            self.emit_u8(MOD11 | reg.low());
            self.emit_u8(imm32 as u8);
        } else {
            if reg == X64Reg::RAX {
                self.emit_u8(ADD_EAX);
            } else {
                self.emit_u8(ADD_I32);
                self.emit_u8(MOD11 | reg.low());
            }
            self.emit_u32(imm32 as u32);
        }
        assert(self.bytes() =~= old(self).bytes() + enc_add_ir(imm32, reg));
        if reg == X64Reg::RSP {
            StackOffset(imm32).neg()
        } else {
            StackOffset(0)
        }
    }
}

} // verus!
