//! Calls and returns.

use vstd::prelude::*;
use crate::assembler::Assembler;
use crate::assembler::CALL;
use crate::assembler::disp_operand;
use crate::assembler::label_size_ok;
use crate::assembler::mem_operand;
use crate::assembler::placeholder;
use crate::Label;
use crate::assembler::cond_rexb;
use crate::StackOffset;
use crate::X64Reg;

verus! {

/// `callq *%reg`.
pub open spec fn enc_callq_r(reg: X64Reg) -> Seq<u8> {
    cond_rexb(reg) + seq![0xffu8, 0xd0 | reg.spec_low()]
}

/// `callq *offset(%ptr)`: opcode `0xff` with extension 2 in the ModRM `reg`
/// field (the number of `%rdx`), without a displacement when it is zero.
pub open spec fn enc_callq_m_offset(ptr: X64Reg, offset: i32) -> Seq<u8> {
    if offset == 0 {
        cond_rexb(ptr) + seq![0xffu8] + mem_operand(X64Reg::RDX, ptr)
    } else {
        cond_rexb(ptr) + seq![0xffu8] + disp_operand(X64Reg::RDX, ptr, offset)
    }
}

/// `retq`.
pub open spec fn enc_retq() -> Seq<u8> {
    seq![0xc3u8]
}

impl Assembler {
    /// Emits `callq *%reg`; the call pushes a return address, so the stack
    /// grows by 8 bytes.
    pub fn emit_callq_r(&mut self, reg: X64Reg) -> (r: StackOffset)
        requires
            old(self).wf(),
        ensures
            final(self).appended(*old(self), enc_callq_r(reg)),
            r.0 == 8,
    {
        self.emit_cond_rexb(reg);
        self.emit_u8(0xff);
        self.emit_u8(0xd0 | reg.low());
        assert(self.bytes() =~= old(self).bytes() + enc_callq_r(reg));
        StackOffset(8)
    }

    /// Emits `callq *offset(%ptr)`, a call through a pointer in memory; the
    /// call pushes a return address, so the stack grows by 8 bytes.
    pub fn emit_callq_m_offset(&mut self, ptr: X64Reg, offset: StackOffset) -> (r: StackOffset)
        requires
            old(self).wf(),
        ensures
            final(self).appended(*old(self), enc_callq_m_offset(ptr, offset.0)),
            r.0 == 8,
    {
        self.emit_cond_rexb(ptr);
        self.emit_u8(0xff);
        if offset.0 == 0 {
            self.emit_mem_operand(X64Reg::RDX, ptr);
        } else {
            self.emit_disp_operand(X64Reg::RDX, ptr, offset.0);
        }
        assert(self.bytes() =~= old(self).bytes() + enc_callq_m_offset(ptr, offset.0));
        StackOffset(8)
    }

    /// Emits `call` to `label`, with a placeholder displacement of the label's
    /// width; the stack grows by 8 bytes.
    pub fn emit_call_label(&mut self, label: Label) -> (r: StackOffset)
        requires
            old(self).wf(),
            label_size_ok(label),
            old(self).bytes().len() + 5 <= i32::MAX,
        ensures
            final(self).label_emitted(*old(self), seq![CALL], label),
            r.0 == 8,
    {
        self.emit_u8(CALL);
        self.emit_label(label);
        assert(self.bytes() =~= old(self).bytes() + seq![CALL] + placeholder(label));
        StackOffset(8)
    }

    /// Emits `retq`; the return pops the return address, so the stack
    /// shrinks by 8 bytes.
    pub fn emit_retq(&mut self) -> (r: StackOffset)
        requires
            old(self).wf(),
        ensures
            final(self).appended(*old(self), enc_retq()),
            r.0 == -8,
    {
        self.emit_u8(0xc3);
        StackOffset(-8)
    }
}

} // verus!
