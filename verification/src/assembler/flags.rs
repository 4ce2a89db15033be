//! Carry flag.

use vstd::prelude::*;
use crate::assembler::Assembler;
use crate::assembler::CLC;
use crate::assembler::STC;

verus! {

impl Assembler {
    /// Emits `clc`, which clears the carry flag.
    pub fn emit_clc(&mut self)
        requires
            old(self).wf(),
        ensures
            final(self).appended(*old(self), seq![CLC]),
    {
        self.emit_u8(CLC);
    }

    /// Emits `stc`, which sets the carry flag.
    pub fn emit_stc(&mut self)
        requires
            old(self).wf(),
        ensures
            final(self).appended(*old(self), seq![STC]),
    {
        self.emit_u8(STC);
    }
}

} // verus!
