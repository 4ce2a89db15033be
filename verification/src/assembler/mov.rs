//! `mov` instructions between registers, immediates and memory.

use vstd::prelude::*;
use crate::assembler::Assembler;
use crate::assembler::MOD11;
use crate::assembler::MOV;
use crate::assembler::MOV2;
use crate::assembler::REX;
use crate::assembler::REXW;
use crate::assembler::cond_rexb;
use crate::assembler::cond_rexrb;
use crate::assembler::disp_operand;
use crate::assembler::le32;
use crate::assembler::le64;
use crate::assembler::mem_operand;
use crate::assembler::spec_rexb;
use crate::assembler::spec_rexr;
use crate::StackOffset;
use crate::X64Reg;

verus! {

/// `movl $imm32, %dest`.
pub open spec fn enc_movl_ir(imm32: u32, dest: X64Reg) -> Seq<u8> {
    cond_rexb(dest) + seq![0xb8 | dest.spec_low()] + le32(imm32)
}

/// `movl %src, %dest`.
pub open spec fn enc_movl_rr(src: X64Reg, dest: X64Reg) -> Seq<u8> {
    cond_rexrb(src, dest) + seq![MOV2, MOD11 | src.spec_low() << 3 | dest.spec_low()]
}

/// `movq $imm64, %dest`.
pub open spec fn enc_movq_ir(imm64: u64, dest: X64Reg) -> Seq<u8> {
    seq![REX | REXW | spec_rexb(dest), 0xb8 | dest.spec_low()] + le64(imm64)
}

/// `movl (%ptr), %dest`.
pub open spec fn enc_movl_mr(ptr: X64Reg, dest: X64Reg) -> Seq<u8> {
    cond_rexrb(dest, ptr) + seq![MOV] + mem_operand(dest, ptr)
}

/// `movl %src, (%ptr)`.
pub open spec fn enc_movl_rm(src: X64Reg, ptr: X64Reg) -> Seq<u8> {
    cond_rexrb(src, ptr) + seq![MOV2] + mem_operand(src, ptr)
}

/// `movl offset(%ptr), %dest`; without a displacement when it is zero.
pub open spec fn enc_movl_mr_offset(ptr: X64Reg, dest: X64Reg, offset: i32) -> Seq<u8> {
    if offset == 0 {
        enc_movl_mr(ptr, dest)
    } else {
        cond_rexrb(dest, ptr) + seq![MOV] + disp_operand(dest, ptr, offset)
    }
}

/// `movl %src, offset(%ptr)`; without a displacement when it is zero.
pub open spec fn enc_movl_rm_offset(src: X64Reg, ptr: X64Reg, offset: i32) -> Seq<u8> {
    if offset == 0 {
        enc_movl_rm(src, ptr)
    } else {
        cond_rexrb(src, ptr) + seq![MOV2] + disp_operand(src, ptr, offset)
    }
}

/// `movq (%ptr), %dest`.
pub open spec fn enc_movq_mr(ptr: X64Reg, dest: X64Reg) -> Seq<u8> {
    seq![REX | REXW | spec_rexr(dest) | spec_rexb(ptr), MOV] + mem_operand(dest, ptr)
}

/// `movq offset(%ptr), %dest`; without a displacement when it is zero.
pub open spec fn enc_movq_mr_offset(ptr: X64Reg, dest: X64Reg, offset: i32) -> Seq<u8> {
    if offset == 0 {
        enc_movq_mr(ptr, dest)
    } else {
        seq![REX | REXW | spec_rexr(dest) | spec_rexb(ptr), MOV] + disp_operand(dest, ptr, offset)
    }
}

/// `movq %src, (%ptr)`.
pub open spec fn enc_movq_rm(src: X64Reg, ptr: X64Reg) -> Seq<u8> {
    seq![REX | REXW | spec_rexr(src) | spec_rexb(ptr), MOV2] + mem_operand(src, ptr)
}

/// `movq %src, offset(%ptr)`; without a displacement when it is zero.
pub open spec fn enc_movq_rm_offset(src: X64Reg, ptr: X64Reg, offset: i32) -> Seq<u8> {
    if offset == 0 {
        enc_movq_rm(src, ptr)
    } else {
        seq![REX | REXW | spec_rexr(src) | spec_rexb(ptr), MOV2] + disp_operand(src, ptr, offset)
    }
}

impl Assembler {
    /// Emits the ModRM byte (and SIB byte or zero displacement) of `(%ptr)`.
    pub(crate) fn emit_mem_operand(&mut self, reg: X64Reg, ptr: X64Reg)
        requires
            old(self).wf(),
        ensures
            final(self).appended(*old(self), mem_operand(reg, ptr)),
    {
        if ptr.low() == 5 {
            self.emit_u8(0x45 | reg.low() << 3);
            self.emit_u8(0x00);
        } else {
            self.emit_u8(reg.low() << 3 | ptr.low());
            if ptr.low() == 4 {
                self.emit_u8(0x24);
            }
        }
        assert(self.bytes() =~= old(self).bytes() + mem_operand(reg, ptr));
    }

    /// Emits the ModRM byte, SIB byte and displacement of `offset(%ptr)`.
    pub(crate) fn emit_disp_operand(&mut self, reg: X64Reg, ptr: X64Reg, offset: i32)
        requires
            old(self).wf(),
        ensures
            final(self).appended(*old(self), disp_operand(reg, ptr, offset)),
    {
        if -0x80 <= offset && offset <= 0x7f {
            self.emit_u8(0x40 | reg.low() << 3 | ptr.low());
            if ptr.low() == 4 {
                self.emit_u8(0x24);
            }
            self.emit_u8(offset as u8);
        } else {
            self.emit_u8(0x80 | reg.low() << 3 | ptr.low());
            if ptr.low() == 4 {
                self.emit_u8(0x24);
            }
            self.emit_u32(offset as u32);
        }
        assert(self.bytes() =~= old(self).bytes() + disp_operand(reg, ptr, offset));
    }

    /// Emits `movl $imm32, %dest`.
    pub fn emit_movl_ir(&mut self, imm32: u32, dest: X64Reg)
        requires
            old(self).wf(),
        ensures
            final(self).appended(*old(self), enc_movl_ir(imm32, dest)),
    {
        self.emit_cond_rexb(dest);
        self.emit_u8(0xb8 | dest.low());
        self.emit_u32(imm32);
        assert(self.bytes() =~= old(self).bytes() + enc_movl_ir(imm32, dest));
    }

    /// Emits `movl %src, %dest`.
    pub fn emit_movl_rr(&mut self, src: X64Reg, dest: X64Reg)
        requires
            old(self).wf(),
        ensures
            final(self).appended(*old(self), enc_movl_rr(src, dest)),
    {
        self.emit_cond_rexrb(src, dest);
        self.emit_u8(MOV2);
        self.emit_u8(MOD11 | src.low() << 3 | dest.low());
        assert(self.bytes() =~= old(self).bytes() + enc_movl_rr(src, dest));
    }

    /// Emits `movq $imm64, %dest`.
    pub fn emit_movq_ir(&mut self, src: u64, dest: X64Reg)
        requires
            old(self).wf(),
        ensures
            final(self).appended(*old(self), enc_movq_ir(src, dest)),
    {
        let prefix = REX | REXW | Assembler::rexb(dest);
        self.emit_u8(prefix);
        self.emit_u8(0xb8 | dest.low());
        self.emit_u64(src);
        assert(self.bytes() =~= old(self).bytes() + enc_movq_ir(src, dest));
    }

    /// Emits `movl (%ptr), %dest`.
    pub fn emit_movl_mr(&mut self, ptr: X64Reg, dest: X64Reg)
        requires
            old(self).wf(),
        ensures
            final(self).appended(*old(self), enc_movl_mr(ptr, dest)),
    {
        self.emit_cond_rexrb(dest, ptr);
        self.emit_u8(MOV);
        self.emit_mem_operand(dest, ptr);
        assert(self.bytes() =~= old(self).bytes() + enc_movl_mr(ptr, dest));
    }

    /// Emits `movl %src, (%ptr)`.
    pub fn emit_movl_rm(&mut self, src: X64Reg, ptr: X64Reg)
        requires
            old(self).wf(),
        ensures
            final(self).appended(*old(self), enc_movl_rm(src, ptr)),
    {
        self.emit_cond_rexrb(src, ptr);
        self.emit_u8(MOV2);
        self.emit_mem_operand(src, ptr);
        assert(self.bytes() =~= old(self).bytes() + enc_movl_rm(src, ptr));
    }

    /// Emits `movl offset(%ptr), %dest`.
    pub fn emit_movl_mr_offset(&mut self, ptr: X64Reg, dest: X64Reg, offset: StackOffset)
        requires
            old(self).wf(),
        ensures
            final(self).appended(*old(self), enc_movl_mr_offset(ptr, dest, offset.0)),
    {
        let offset = offset.0;
        if offset == 0 {
            self.emit_movl_mr(ptr, dest);
        } else {
            self.emit_cond_rexrb(dest, ptr);
            self.emit_u8(MOV);
            self.emit_disp_operand(dest, ptr, offset);
            assert(self.bytes() =~= old(self).bytes() + enc_movl_mr_offset(ptr, dest, offset));
        }
    }

    /// Emits `movl %src, offset(%ptr)`.
    pub fn emit_movl_rm_offset(&mut self, src: X64Reg, ptr: X64Reg, offset: StackOffset)
        requires
            old(self).wf(),
        ensures
            final(self).appended(*old(self), enc_movl_rm_offset(src, ptr, offset.0)),
    {
        let offset = offset.0;
        if offset == 0 {
            self.emit_movl_rm(src, ptr);
        } else {
            self.emit_cond_rexrb(src, ptr);
            self.emit_u8(MOV2);
            self.emit_disp_operand(src, ptr, offset);
            assert(self.bytes() =~= old(self).bytes() + enc_movl_rm_offset(src, ptr, offset));
        }
    }

    /// Emits `movq (%ptr), %dest`.
    pub fn emit_movq_mr(&mut self, ptr: X64Reg, dest: X64Reg)
        requires
            old(self).wf(),
        ensures
            final(self).appended(*old(self), enc_movq_mr(ptr, dest)),
    {
        let prefix = REX | REXW | Assembler::rexr(dest) | Assembler::rexb(ptr);
        self.emit_u8(prefix);
        self.emit_u8(MOV);
        self.emit_mem_operand(dest, ptr);
        assert(self.bytes() =~= old(self).bytes() + enc_movq_mr(ptr, dest));
    }

    /// Emits `movq offset(%ptr), %dest`.
    pub fn emit_movq_mr_offset(&mut self, ptr: X64Reg, dest: X64Reg, offset: StackOffset)
        requires
            old(self).wf(),
        ensures
            final(self).appended(*old(self), enc_movq_mr_offset(ptr, dest, offset.0)),
    {
        let offset = offset.0;
        if offset == 0 {
            self.emit_movq_mr(ptr, dest);
        } else {
            let prefix = REX | REXW | Assembler::rexr(dest) | Assembler::rexb(ptr);
            self.emit_u8(prefix);
            self.emit_u8(MOV);
            self.emit_disp_operand(dest, ptr, offset);
            assert(self.bytes() =~= old(self).bytes() + enc_movq_mr_offset(ptr, dest, offset));
        }
    }

    /// Emits `movq %src, (%ptr)`.
    pub fn emit_movq_rm(&mut self, src: X64Reg, ptr: X64Reg)
        requires
            old(self).wf(),
        ensures
            final(self).appended(*old(self), enc_movq_rm(src, ptr)),
    {
        let prefix = REX | REXW | Assembler::rexr(src) | Assembler::rexb(ptr);
        self.emit_u8(prefix);
        self.emit_u8(MOV2);
        self.emit_mem_operand(src, ptr);
        assert(self.bytes() =~= old(self).bytes() + enc_movq_rm(src, ptr));
    }

    /// Emits `movq %src, offset(%ptr)`.
    pub fn emit_movq_rm_offset(&mut self, src: X64Reg, ptr: X64Reg, offset: StackOffset)
        requires
            old(self).wf(),
        ensures
            final(self).appended(*old(self), enc_movq_rm_offset(src, ptr, offset.0)),
    {
        let offset = offset.0;
        if offset == 0 {
            self.emit_movq_rm(src, ptr);
        } else {
            let prefix = REX | REXW | Assembler::rexr(src) | Assembler::rexb(ptr);
            self.emit_u8(prefix);
            self.emit_u8(MOV2);
            self.emit_disp_operand(src, ptr, offset);
            assert(self.bytes() =~= old(self).bytes() + enc_movq_rm_offset(src, ptr, offset));
        }
    }
}

} // verus!
