//! The illegal instruction.

use vstd::prelude::*;
use crate::assembler::Assembler;

verus! {

/// `ud2`, the instruction that is guaranteed to raise an invalid-opcode
/// exception.
pub open spec fn enc_ud2() -> Seq<u8> {
    seq![0x0fu8, 0x0bu8]
}

impl Assembler {
    /// Emits `ud2`, which traps when it is reached.
    pub fn emit_illegal_insn(&mut self)
        requires
            old(self).wf(),
        ensures
            final(self).appended(*old(self), enc_ud2()),
    {
        self.emit_u8(0x0f);
        self.emit_u8(0x0b);
        assert(self.bytes() =~= old(self).bytes() + enc_ud2());
    }
}

} // verus!
