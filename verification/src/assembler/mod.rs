//! An x86-64 assembler that appends instruction encodings to a byte buffer
//! and patches jump displacements once their targets are known.

use vstd::prelude::*;
use crate::Label;
use crate::StackOffset;
use crate::StackOffsetType;
use crate::X64Reg;

pub mod add;
pub mod and;
pub mod bt;
pub mod call;
pub mod compare;
pub mod div;
pub mod flags;
pub mod jmp;
pub mod mov;
pub mod or;
pub mod shift;
pub mod stack;
pub mod sub;
pub mod test;
pub mod trap;
pub mod x86;
pub mod ui;
pub mod xchg;
pub mod xor;

verus! {

pub const ADD_EAX: u8 = 0x05;
pub const ADD_I32: u8 = 0x81;
pub const ADD_I8: u8 = 0x83;
pub const ADD_R: u8 = 0x01;
pub const AND_EAX: u8 = 0x25;
pub const AND_EXT: u8 = 4 << 3;
pub const AND_I32: u8 = 0x81;
pub const AND_R: u8 = 0x21;
pub const CALL: u8 = 0xe8;
pub const CLC: u8 = 0xf8;
pub const CMP: u8 = 0x39;
pub const DIV: u8 = 0xf7;
pub const DIV_EXT: u8 = 6 << 3;
pub const IDIV_EXT: u8 = 7 << 3;
pub const JC: u8 = 0x72;
pub const JC_LONG: u8 = 0x82;
pub const JE: u8 = 0x74;
pub const JMP: u8 = 0xeb;
pub const JNC: u8 = 0x73;
pub const JNE: u8 = 0x75;
pub const JNL: u8 = 0x7D;
pub const JNS: u8 = 0x79;
pub const JS: u8 = 0x78;
pub const LABEL_PLACEHOLDER: u8 = 0xff;
pub const MOD11: u8 = 0xc0;
pub const MOV: u8 = 0x8b;
pub const MOV2: u8 = 0x89;
pub const OR_EAX: u8 = 0x0d;
pub const OR_I32: u8 = 0x81;
pub const OR_R: u8 = 0x09;
pub const POP: u8 = 0x58;
pub const PUSH: u8 = 0x50;
pub const REX: u8 = 0x40;
pub const REXB: u8 = 0x01;
pub const REXR: u8 = 0x04;
pub const REXW: u8 = 0x08;
pub const SAR: u8 = 0xf8;
pub const SHIFT: u8 = 0xc1;
pub const SHL: u8 = 0xe0;
pub const SHR: u8 = 0xe8;
pub const STC: u8 = 0xf9;
pub const SUB_EAX: u8 = 0x2D;
pub const SUB_EXT: u8 = 5 << 3;
pub const SUB_I32: u8 = 0x81;
pub const SUB_I8: u8 = 0x83;
pub const SUB_R: u8 = 0x29;
pub const TEST: u8 = 0x85;
pub const XCHG: u8 = 0x87;
pub const XOR: u8 = 0x31;

/// The little-endian bytes of a 16-bit value.
pub open spec fn le16(x: u16) -> Seq<u8> {
    seq![(x & 0xff) as u8, ((x >> 8) & 0xff) as u8]
}

/// The little-endian bytes of a 32-bit value.
pub open spec fn le32(x: u32) -> Seq<u8> {
    seq![(x & 0xff) as u8, ((x >> 8) & 0xff) as u8, ((x >> 16) & 0xff) as u8, ((x >> 24) & 0xff) as u8]
}

/// The little-endian bytes of a 64-bit value.
pub open spec fn le64(x: u64) -> Seq<u8> {
    seq![
        (x & 0xff) as u8,
        ((x >> 8) & 0xff) as u8,
        ((x >> 16) & 0xff) as u8,
        ((x >> 24) & 0xff) as u8,
        ((x >> 32) & 0xff) as u8,
        ((x >> 40) & 0xff) as u8,
        ((x >> 48) & 0xff) as u8,
        ((x >> 56) & 0xff) as u8,
    ]
}

/// The REX.B bit that extends a register named in the ModRM `rm` field.
pub open spec fn spec_rexb(reg: X64Reg) -> u8 {
    if reg.spec_is_extended() {
        REXB
    } else {
        0
    }
}

/// The REX.R bit that extends a register named in the ModRM `reg` field.
pub open spec fn spec_rexr(reg: X64Reg) -> u8 {
    if reg.spec_is_extended() {
        REXR
    } else {
        0
    }
}

/// A REX prefix for an extended `rm` register, or nothing.
pub open spec fn cond_rexb(reg: X64Reg) -> Seq<u8> {
    if reg.spec_is_extended() {
        seq![REX | REXB]
    } else {
        seq![]
    }
}

/// A REX prefix for an extended `reg` or `rm` register, or nothing.
pub open spec fn cond_rexrb(reg1: X64Reg, reg2: X64Reg) -> Seq<u8> {
    if reg1.spec_is_extended() || reg2.spec_is_extended() {
        seq![REX | spec_rexr(reg1) | spec_rexb(reg2)]
    } else {
        seq![]
    }
}

/// A REX.W prefix, with the extension bits of both registers.
pub open spec fn rexwrb(reg1: X64Reg, reg2: X64Reg) -> Seq<u8> {
    seq![REX | REXW | spec_rexr(reg1) | spec_rexb(reg2)]
}

/// The SIB byte that `[%rsp]`-style addressing (`rm` = 4) needs, or nothing.
pub open spec fn sib_for(ptr: X64Reg) -> Seq<u8> {
    if ptr.spec_low() == 4 {
        seq![0x24u8]
    } else {
        seq![]
    }
}

/// ModRM (and SIB or zero displacement) for the operand `[ptr]`, with `reg`
/// in the ModRM `reg` field.
pub open spec fn mem_operand(reg: X64Reg, ptr: X64Reg) -> Seq<u8> {
    if ptr.spec_low() == 5 {
        seq![0x45 | reg.spec_low() << 3, 0x00u8]
    } else {
        seq![reg.spec_low() << 3 | ptr.spec_low()] + sib_for(ptr)
    }
}

/// ModRM, SIB and displacement for the operand `[ptr + offset]`, with a
/// one-byte displacement when it fits and a four-byte one otherwise.
pub open spec fn disp_operand(reg: X64Reg, ptr: X64Reg, offset: i32) -> Seq<u8> {
    if -0x80 <= offset <= 0x7f {
        seq![0x40 | reg.spec_low() << 3 | ptr.spec_low()] + sib_for(ptr) + seq![offset as u8]
    } else {
        seq![0x80 | reg.spec_low() << 3 | ptr.spec_low()] + sib_for(ptr) + le32(offset as u32)
    }
}

/// A two-register ALU instruction `op %src, %dest`, with a REX prefix when
/// either register is extended.
pub open spec fn enc_alu_rr(op: u8, src: X64Reg, dest: X64Reg) -> Seq<u8> {
    cond_rexrb(src, dest) + seq![op, MOD11 | src.spec_low() << 3 | dest.spec_low()]
}

/// The bytes that stand for a relative displacement `rel` of the given width.
pub open spec fn rel_bytes(rel: i32, size: int) -> Seq<u8> {
    if size == 1 {
        seq![rel as u8]
    } else {
        seq![
            (rel & 0xff) as u8,
            ((rel >> 8) & 0xff) as u8,
            ((rel >> 16) & 0xff) as u8,
            ((rel >> 24) & 0xff) as u8,
        ]
    }
}

/// The map from labels to positions that an association list stands for:
/// later entries take the place of earlier ones with the same label.
pub open spec fn assoc_map(s: Seq<(Label, StackOffset)>) -> Map<Label, StackOffset>
    decreases s.len(),
{
    if s.len() == 0 {
        Map::empty()
    } else {
        assoc_map(s.drop_last()).insert(s.last().0, s.last().1)
    }
}

/// Whether a label has one of the two displacement widths the assembler
/// knows: one byte or four.
pub open spec fn label_size_ok(label: Label) -> bool {
    label.spec_size() == 1 || label.spec_size() == 4
}

/// The placeholder bytes that stand for a label's displacement until it is
/// resolved.
pub open spec fn placeholder(label: Label) -> Seq<u8> {
    if label.spec_size() == 1 {
        seq![LABEL_PLACEHOLDER]
    } else {
        seq![LABEL_PLACEHOLDER, LABEL_PLACEHOLDER, LABEL_PLACEHOLDER, LABEL_PLACEHOLDER]
    }
}

/// Whether byte `k` lies in the placeholder of some recorded label use.
pub open spec fn in_some_use(uses: Seq<(StackOffset, Label)>, k: int) -> bool {
    exists|i: int|
        0 <= i < uses.len() && uses[i].0.0 <= k < uses[i].0.0 + (#[trigger] uses[i]).1.spec_size()
}

/// An assembler: the code emitted so far, the next label number, where
/// labels are referred to, and where they are defined.
pub struct Assembler {
    buffer: Vec<u8>,
    label_counter: usize,
    labels_used: Vec<(StackOffset, Label)>,
    labels_defined: Vec<(Label, StackOffset)>,
}

impl Assembler {
    /// The code emitted so far.
    pub closed spec fn bytes(self) -> Seq<u8> {
        self.buffer@
    }

    /// The number of the next label to be created.
    pub closed spec fn label_count(self) -> nat {
        self.label_counter as nat
    }

    /// The places where a label's displacement is to be written, in the
    /// order in which they were emitted.
    pub closed spec fn uses(self) -> Seq<(StackOffset, Label)> {
        self.labels_used@
    }

    /// Where each defined label points to in the code.
    pub closed spec fn defs(self) -> Map<Label, StackOffset> {
        assoc_map(self.labels_defined@)
    }

    /// The assembler's invariant: every recorded use is a placeholder of the
    /// label's width inside the code, uses come in order and do not overlap,
    /// and every definition points into the code or at its end.
    pub closed spec fn wf(self) -> bool {
        &&& forall|i: int|
            0 <= i < self.uses().len() ==> {
                let u = #[trigger] self.uses()[i];
                &&& label_size_ok(u.1)
                &&& 0 <= u.0.0
                &&& u.0.0 + u.1.spec_size() <= self.bytes().len()
                &&& u.0.0 + u.1.spec_size() <= i32::MAX
            }
        &&& forall|i: int, j: int|
            0 <= i < j < self.uses().len() ==> #[trigger] self.uses()[i].0.0
                + self.uses()[i].1.spec_size() <= #[trigger] self.uses()[j].0.0
        &&& forall|l: Label|
            #[trigger] self.defs().contains_key(l) ==> 0 <= self.defs()[l].0 <= self.bytes().len()
    }

    /// `self` is `old` with `code` appended and no label bookkeeping changed.
    pub open spec fn appended(self, old: Assembler, code: Seq<u8>) -> bool {
        &&& self.bytes() == old.bytes() + code
        &&& self.label_count() == old.label_count()
        &&& self.uses() == old.uses()
        &&& self.defs() == old.defs()
        &&& self.wf()
    }

    /// `self` is `old` with `prefix` and a placeholder for `label` appended,
    /// and the placeholder recorded as a use of `label`.
    pub open spec fn label_emitted(self, old: Assembler, prefix: Seq<u8>, label: Label) -> bool {
        &&& self.bytes() == old.bytes() + prefix + placeholder(label)
        &&& self.label_count() == old.label_count()
        &&& self.uses() == old.uses().push(
            (StackOffset((old.bytes().len() + prefix.len()) as i32), label),
        )
        &&& self.defs() == old.defs()
        &&& self.wf()
    }

    proof fn lemma_append_wf(self, old: Assembler, code: Seq<u8>)
        requires
            old.wf(),
            self.bytes() == old.bytes() + code,
            self.uses() == old.uses(),
            self.defs() == old.defs(),
        ensures
            self.wf(),
    {
        assert forall|i: int| 0 <= i < self.uses().len() implies {
            let u = #[trigger] self.uses()[i];
            &&& label_size_ok(u.1)
            &&& 0 <= u.0.0
            &&& u.0.0 + u.1.spec_size() <= self.bytes().len()
            &&& u.0.0 + u.1.spec_size() <= i32::MAX
        } by {
            assert(old.uses()[i] == self.uses()[i]);
        }
        assert forall|l: Label| #[trigger] self.defs().contains_key(l) implies 0 <= self.defs()[l].0
            <= self.bytes().len() by {
            assert(old.defs().contains_key(l));
        }
    }

    /// Appends one byte.
    pub fn emit_u8(&mut self, imm8: u8)
        requires
            old(self).wf(),
        ensures
            final(self).appended(*old(self), seq![imm8]),
    {
        self.buffer.push(imm8);
        proof {
            assert(self.bytes() =~= old(self).bytes() + seq![imm8]);
            self.lemma_append_wf(*old(self), seq![imm8]);
        }
    }

    /// Appends a 16-bit value in little-endian order.
    pub fn emit_u16(&mut self, imm16: u16)
        requires
            old(self).wf(),
        ensures
            final(self).appended(*old(self), le16(imm16)),
    {
        self.emit_u8((imm16 & 0xff) as u8);
        self.emit_u8(((imm16 >> 8) & 0xff) as u8);
        assert(self.bytes() =~= old(self).bytes() + le16(imm16));
    }

    /// Appends a 32-bit value in little-endian order.
    pub fn emit_u32(&mut self, imm32: u32)
        requires
            old(self).wf(),
        ensures
            final(self).appended(*old(self), le32(imm32)),
    {
        self.emit_u8((imm32 & 0xff) as u8);
        self.emit_u8(((imm32 >> 8) & 0xff) as u8);
        self.emit_u8(((imm32 >> 16) & 0xff) as u8);
        self.emit_u8(((imm32 >> 24) & 0xff) as u8);
        assert(self.bytes() =~= old(self).bytes() + le32(imm32));
    }

    /// Appends a 64-bit value in little-endian order.
    pub fn emit_u64(&mut self, imm64: u64)
        requires
            old(self).wf(),
        ensures
            final(self).appended(*old(self), le64(imm64)),
    {
        self.emit_u8((imm64 & 0xff) as u8);
        self.emit_u8(((imm64 >> 8) & 0xff) as u8);
        self.emit_u8(((imm64 >> 16) & 0xff) as u8);
        self.emit_u8(((imm64 >> 24) & 0xff) as u8);
        self.emit_u8(((imm64 >> 32) & 0xff) as u8);
        self.emit_u8(((imm64 >> 40) & 0xff) as u8);
        self.emit_u8(((imm64 >> 48) & 0xff) as u8);
        self.emit_u8(((imm64 >> 56) & 0xff) as u8);
        assert(self.bytes() =~= old(self).bytes() + le64(imm64));
    }

    /// Emits a placeholder for `label`'s displacement and records where it is,
    /// to be filled in by [`Assembler::resolve_label_addresses`].
    pub fn emit_label(&mut self, label: Label)
        requires
            old(self).wf(),
            label_size_ok(label),
            old(self).bytes().len() + 4 <= i32::MAX,
        ensures
            final(self).label_emitted(*old(self), seq![], label),
    {
        let location = StackOffset(self.buffer.len() as StackOffsetType);
        if label.size.0 == 1 {
            self.labels_used.push((location, label));
            self.buffer.push(LABEL_PLACEHOLDER);
        } else {
            self.labels_used.push((location, label));
            self.buffer.push(LABEL_PLACEHOLDER);
            self.buffer.push(LABEL_PLACEHOLDER);
            self.buffer.push(LABEL_PLACEHOLDER);
            self.buffer.push(LABEL_PLACEHOLDER);
        }
        assert(self.bytes() =~= old(self).bytes() + seq![] + placeholder(label));
        assert forall|i: int, j: int|
            0 <= i < j < self.uses().len() implies #[trigger] self.uses()[i].0.0
            + self.uses()[i].1.spec_size() <= #[trigger] self.uses()[j].0.0 by {
            let ou = old(self).uses();
            assert(self.uses()[i] == ou[i]);
            if j == self.uses().len() - 1 {
                assert(self.uses()[j].0.0 == old(self).bytes().len());
                let u = ou[i];
                assert(u.0.0 + u.1.spec_size() <= old(self).bytes().len());
            } else {
                assert(self.uses()[j] == ou[j]);
            }
        }
        assert forall|i: int| 0 <= i < self.uses().len() implies {
            let u = #[trigger] self.uses()[i];
            &&& label_size_ok(u.1)
            &&& 0 <= u.0.0
            &&& u.0.0 + u.1.spec_size() <= self.bytes().len()
            &&& u.0.0 + u.1.spec_size() <= i32::MAX
        } by {
            let ou = old(self).uses();
            if i < ou.len() {
                assert(self.uses()[i] == ou[i]);
                let u = ou[i];
                assert(u.0.0 + u.1.spec_size() <= old(self).bytes().len());
            }
        }
        assert forall|l: Label| #[trigger] self.defs().contains_key(l) implies 0 <= self.defs()[l].0
            <= self.bytes().len() by {
            assert(old(self).defs().contains_key(l));
        }
    }

    /// Emits the two-register ALU instruction `op %src, %dest`.
    pub(crate) fn emit_alu_rr(&mut self, op: u8, src: X64Reg, dest: X64Reg)
        requires
            old(self).wf(),
        ensures
            final(self).appended(*old(self), enc_alu_rr(op, src, dest)),
    {
        self.emit_cond_rexrb(src, dest);
        self.emit_u8(op);
        self.emit_u8(MOD11 | src.low() << 3 | dest.low());
        assert(self.bytes() =~= old(self).bytes() + enc_alu_rr(op, src, dest));
    }

    /// The REX.B bit for `reg`.
    pub fn rexb(reg: X64Reg) -> (b: u8)
        ensures
            b == spec_rexb(reg),
    {
        match reg.is_extended() {
            true => REXB,
            false => 0,
        }
    }

    /// The REX.R bit for `reg`.
    pub fn rexr(reg: X64Reg) -> (b: u8)
        ensures
            b == spec_rexr(reg),
    {
        match reg.is_extended() {
            true => REXR,
            false => 0,
        }
    }

    /// Appends a REX prefix if `reg`, in the `rm` field, is extended.
    pub fn emit_cond_rexb(&mut self, reg: X64Reg)
        requires
            old(self).wf(),
        ensures
            final(self).appended(*old(self), cond_rexb(reg)),
    {
        if reg.is_extended() {
            self.emit_u8(REX | REXB);
        }
    }

    /// Appends a REX prefix if `reg1` (in the `reg` field) or `reg2` (in the
    /// `rm` field) is extended.
    pub fn emit_cond_rexrb(&mut self, reg1: X64Reg, reg2: X64Reg)
        requires
            old(self).wf(),
        ensures
            final(self).appended(*old(self), cond_rexrb(reg1, reg2)),
    {
        if reg1.is_extended() || reg2.is_extended() {
            self.emit_u8(REX | Assembler::rexr(reg1) | Assembler::rexb(reg2));
        }
    }

    /// Appends a REX.W prefix with the extension bits of both registers.
    pub fn emit_rexwrb(&mut self, reg1: X64Reg, reg2: X64Reg)
        requires
            old(self).wf(),
        ensures
            final(self).appended(*old(self), rexwrb(reg1, reg2)),
    {
        self.emit_u8(REX | REXW | Assembler::rexr(reg1) | Assembler::rexb(reg2));
    }
}

} // verus!
