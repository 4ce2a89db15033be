//! Pushes and pops.

use vstd::prelude::*;
use crate::assembler::Assembler;
use crate::assembler::POP;
use crate::assembler::PUSH;
use crate::assembler::cond_rexb;
use crate::assembler::mov::enc_movq_ir;
use crate::assembler::xchg::enc_xchgq_rm;
use crate::StackOffset;
use crate::X64Reg;

verus! {

/// `pushq %reg`.
pub open spec fn enc_pushq_r(reg: X64Reg) -> Seq<u8> {
    cond_rexb(reg) + seq![PUSH | reg.spec_low()]
}

/// `popq %reg`.
pub open spec fn enc_popq_r(reg: X64Reg) -> Seq<u8> {
    cond_rexb(reg) + seq![POP | reg.spec_low()]
}

/// Pushing a 64-bit immediate: push `%rax`, load the immediate into `%rax`,
/// and swap it with the pushed copy, so `%rax` keeps its value.
pub open spec fn enc_pushq_i(imm64: u64) -> Seq<u8> {
    enc_pushq_r(X64Reg::RAX) + enc_movq_ir(imm64, X64Reg::RAX) + enc_xchgq_rm(
        X64Reg::RAX,
        X64Reg::RSP,
    )
}

impl Assembler {
    /// Emits code that pushes `imm64`; the stack grows by 8 bytes.
    pub fn emit_pushq_i(&mut self, imm64: u64) -> (r: StackOffset)
        requires
            old(self).wf(),
        ensures
            final(self).appended(*old(self), enc_pushq_i(imm64)),
            r.0 == 8,
    {
        let offset = self.emit_pushq_r(X64Reg::RAX);
        self.emit_movq_ir(imm64, X64Reg::RAX);
        self.emit_xchgq_rm(X64Reg::RAX, X64Reg::RSP);
        assert(self.bytes() =~= old(self).bytes() + enc_pushq_i(imm64));
        offset
    }

    /// Emits `pushq %reg`; the stack grows by 8 bytes.
    pub fn emit_pushq_r(&mut self, reg: X64Reg) -> (r: StackOffset)
        requires
            old(self).wf(),
        ensures
            final(self).appended(*old(self), enc_pushq_r(reg)),
            r.0 == 8,
    {
        self.emit_cond_rexb(reg);
        self.emit_u8(PUSH | reg.low());
        assert(self.bytes() =~= old(self).bytes() + enc_pushq_r(reg));
        StackOffset(8)
    }

    /// Emits `popq %reg`; the stack shrinks by 8 bytes.
    pub fn emit_popq_r(&mut self, reg: X64Reg) -> (r: StackOffset)
        requires
            old(self).wf(),
        ensures
            final(self).appended(*old(self), enc_popq_r(reg)),
            r.0 == -8,
    {
        self.emit_cond_rexb(reg);
        self.emit_u8(POP | reg.low());
        assert(self.bytes() =~= old(self).bytes() + enc_popq_r(reg));
        StackOffset(-8)
    }

    /// Emits `pushfq`; the stack grows by 8 bytes.
    pub fn emit_pushfq(&mut self) -> (r: StackOffset)
        requires
            old(self).wf(),
        ensures
            final(self).appended(*old(self), seq![0x9cu8]),
            r.0 == 8,
    {
        self.emit_u8(0x9c);
        StackOffset(8)
    }

    /// Emits `popfq`; the stack shrinks by 8 bytes.
    pub fn emit_popfq(&mut self) -> (r: StackOffset)
        requires
            old(self).wf(),
        ensures
            final(self).appended(*old(self), seq![0x9du8]),
            r.0 == -8,
    {
        self.emit_u8(0x9d);
        StackOffset(-8)
    }
}

} // verus!
