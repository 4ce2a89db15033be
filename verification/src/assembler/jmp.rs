//! Jumps, with either a fixed displacement or a label.

use vstd::prelude::*;
use crate::assembler::Assembler;
use crate::assembler::JC;
use crate::assembler::JC_LONG;
use crate::assembler::JE;
use crate::assembler::JMP;
use crate::assembler::JNC;
use crate::assembler::JNE;
use crate::assembler::JNL;
use crate::assembler::JNS;
use crate::assembler::JS;
use crate::assembler::label_size_ok;
use crate::assembler::le32;
use crate::assembler::placeholder;
use crate::assembler::rel_bytes;
use crate::Label;

verus! {

/// A short jump with opcode `op` and displacement `offset`.
pub open spec fn enc_jcc_rel8(op: u8, offset: i8) -> Seq<u8> {
    seq![op, offset as u8]
}

/// `jc` with a four-byte displacement.
pub open spec fn enc_jc_rel32(offset: i32) -> Seq<u8> {
    seq![0x0fu8, JC_LONG] + le32(offset as u32)
}

/// A jump to a label, once the label is resolved, is the jump written with
/// the displacement itself: for a short label the one-byte form, whose
/// displacement is the low byte of the distance, and for a long label the
/// four-byte form.
pub proof fn law_resolved_jump(op: u8, rel: i32)
    ensures
        seq![op] + rel_bytes(rel, 1) == enc_jcc_rel8(op, rel as i8),
        seq![0x0fu8, JC_LONG] + rel_bytes(rel, 4) == enc_jc_rel32(rel),
{
    assert((rel as u8) == ((rel as i8) as u8)) by (bit_vector);
    let x = rel as u32;
    assert(((rel & 0xff) as u8) == ((x & 0xff) as u8)) by (bit_vector)
        requires
            x == rel as u32,
    ;
    assert((((rel >> 8) & 0xff) as u8) == (((x >> 8) & 0xff) as u8)) by (bit_vector)
        requires
            x == rel as u32,
    ;
    assert((((rel >> 16) & 0xff) as u8) == (((x >> 16) & 0xff) as u8)) by (bit_vector)
        requires
            x == rel as u32,
    ;
    assert((((rel >> 24) & 0xff) as u8) == (((x >> 24) & 0xff) as u8)) by (bit_vector)
        requires
            x == rel as u32,
    ;
    assert(seq![op] + rel_bytes(rel, 1) =~= enc_jcc_rel8(op, rel as i8));
    assert(seq![0x0fu8, JC_LONG] + rel_bytes(rel, 4) =~= enc_jc_rel32(rel));
}

impl Assembler {
    /// Emits `jmp` with the one-byte displacement `offset`.
    pub fn emit_jmp_rel8(&mut self, offset: i8)
        requires
            old(self).wf(),
        ensures
            final(self).appended(*old(self), enc_jcc_rel8(JMP, offset)),
    {
        self.emit_u8(JMP);
        self.emit_u8(offset as u8);
        assert(self.bytes() =~= old(self).bytes() + enc_jcc_rel8(JMP, offset));
    }

    /// Emits `jmp` to `label`, with a placeholder displacement of the
    /// label's width.
    pub fn emit_jmp_label(&mut self, label: Label)
        requires
            old(self).wf(),
            label_size_ok(label),
            old(self).bytes().len() + 5 <= i32::MAX,
        ensures
            final(self).label_emitted(*old(self), seq![JMP], label),
    {
        self.emit_u8(JMP);
        self.emit_label(label);
        assert(self.bytes() =~= old(self).bytes() + seq![JMP] + placeholder(label));
    }

    /// Emits `jc` with the one-byte displacement `offset`.
    pub fn emit_jc_rel8(&mut self, offset: i8)
        requires
            old(self).wf(),
        ensures
            final(self).appended(*old(self), enc_jcc_rel8(JC, offset)),
    {
        self.emit_u8(JC);
        self.emit_u8(offset as u8);
        assert(self.bytes() =~= old(self).bytes() + enc_jcc_rel8(JC, offset));
    }

    /// Emits `jc` to `label`, with a placeholder displacement of the
    /// label's width.
    pub fn emit_jc_label(&mut self, label: Label)
        requires
            old(self).wf(),
            label_size_ok(label),
            old(self).bytes().len() + 5 <= i32::MAX,
        ensures
            final(self).label_emitted(*old(self), seq![JC], label),
    {
        self.emit_u8(JC);
        self.emit_label(label);
        assert(self.bytes() =~= old(self).bytes() + seq![JC] + placeholder(label));
    }

    /// Emits `jnc` with the one-byte displacement `offset`.
    pub fn emit_jnc_rel8(&mut self, offset: i8)
        requires
            old(self).wf(),
        ensures
            final(self).appended(*old(self), enc_jcc_rel8(JNC, offset)),
    {
        self.emit_u8(JNC);
        self.emit_u8(offset as u8);
        assert(self.bytes() =~= old(self).bytes() + enc_jcc_rel8(JNC, offset));
    }

    /// Emits `jnc` to `label`, with a placeholder displacement of the
    /// label's width.
    pub fn emit_jnc_label(&mut self, label: Label)
        requires
            old(self).wf(),
            label_size_ok(label),
            old(self).bytes().len() + 5 <= i32::MAX,
        ensures
            final(self).label_emitted(*old(self), seq![JNC], label),
    {
        self.emit_u8(JNC);
        self.emit_label(label);
        assert(self.bytes() =~= old(self).bytes() + seq![JNC] + placeholder(label));
    }

    /// Emits `je` with the one-byte displacement `offset`.
    pub fn emit_je_rel8(&mut self, offset: i8)
        requires
            old(self).wf(),
        ensures
            final(self).appended(*old(self), enc_jcc_rel8(JE, offset)),
    {
        self.emit_u8(JE);
        self.emit_u8(offset as u8);
        assert(self.bytes() =~= old(self).bytes() + enc_jcc_rel8(JE, offset));
    }

    /// Emits `je` to `label`, with a placeholder displacement of the
    /// label's width.
    pub fn emit_je_label(&mut self, label: Label)
        requires
            old(self).wf(),
            label_size_ok(label),
            old(self).bytes().len() + 5 <= i32::MAX,
        ensures
            final(self).label_emitted(*old(self), seq![JE], label),
    {
        self.emit_u8(JE);
        self.emit_label(label);
        assert(self.bytes() =~= old(self).bytes() + seq![JE] + placeholder(label));
    }

    /// Emits `jne` with the one-byte displacement `offset`.
    pub fn emit_jne_rel8(&mut self, offset: i8)
        requires
            old(self).wf(),
        ensures
            final(self).appended(*old(self), enc_jcc_rel8(JNE, offset)),
    {
        self.emit_u8(JNE);
        self.emit_u8(offset as u8);
        assert(self.bytes() =~= old(self).bytes() + enc_jcc_rel8(JNE, offset));
    }

    /// Emits `jne` to `label`, with a placeholder displacement of the
    /// label's width.
    pub fn emit_jne_label(&mut self, label: Label)
        requires
            old(self).wf(),
            label_size_ok(label),
            old(self).bytes().len() + 5 <= i32::MAX,
        ensures
            final(self).label_emitted(*old(self), seq![JNE], label),
    {
        self.emit_u8(JNE);
        self.emit_label(label);
        assert(self.bytes() =~= old(self).bytes() + seq![JNE] + placeholder(label));
    }

    /// Emits `js` to `label`, with a placeholder displacement of the
    /// label's width.
    pub fn emit_js_label(&mut self, label: Label)
        requires
            old(self).wf(),
            label_size_ok(label),
            old(self).bytes().len() + 5 <= i32::MAX,
        ensures
            final(self).label_emitted(*old(self), seq![JS], label),
    {
        self.emit_u8(JS);
        self.emit_label(label);
        assert(self.bytes() =~= old(self).bytes() + seq![JS] + placeholder(label));
    }

    /// Emits `jns` to `label`, with a placeholder displacement of the
    /// label's width.
    pub fn emit_jns_label(&mut self, label: Label)
        requires
            old(self).wf(),
            label_size_ok(label),
            old(self).bytes().len() + 5 <= i32::MAX,
        ensures
            final(self).label_emitted(*old(self), seq![JNS], label),
    {
        self.emit_u8(JNS);
        self.emit_label(label);
        assert(self.bytes() =~= old(self).bytes() + seq![JNS] + placeholder(label));
    }

    /// Emits `jnl` to `label`, with a placeholder displacement of the
    /// label's width.
    pub fn emit_jnl_label(&mut self, label: Label)
        requires
            old(self).wf(),
            label_size_ok(label),
            old(self).bytes().len() + 5 <= i32::MAX,
        ensures
            final(self).label_emitted(*old(self), seq![JNL], label),
    {
        self.emit_u8(JNL);
        self.emit_label(label);
        assert(self.bytes() =~= old(self).bytes() + seq![JNL] + placeholder(label));
    }

    /// Emits `jc` with the four-byte displacement `offset`.
    pub fn emit_jc_rel32(&mut self, offset: i32)
        requires
            old(self).wf(),
        ensures
            final(self).appended(*old(self), enc_jc_rel32(offset)),
    {
        self.emit_u8(0x0f);
        self.emit_u8(JC_LONG);
        self.emit_u32(offset as u32);
        assert(self.bytes() =~= old(self).bytes() + enc_jc_rel32(offset));
    }

    /// Emits `jc` to `label` in its four-byte-displacement form, with a
    /// placeholder displacement of the label's width.
    pub fn emit_jc_long_label(&mut self, label: Label)
        requires
            old(self).wf(),
            label_size_ok(label),
            old(self).bytes().len() + 6 <= i32::MAX,
        ensures
            final(self).label_emitted(*old(self), seq![0x0fu8, JC_LONG], label),
    {
        self.emit_u8(0x0f);
        self.emit_u8(JC_LONG);
        self.emit_label(label);
        assert(self.bytes() =~= old(self).bytes() + seq![0x0fu8, JC_LONG] + placeholder(label));
    }
}

} // verus!
