//! Exchanges.

use vstd::prelude::*;
use crate::assembler::Assembler;
use crate::assembler::MOD11;
use crate::assembler::REX;
use crate::assembler::REXW;
use crate::assembler::XCHG;
use crate::assembler::mem_operand;
use crate::assembler::rexwrb;
use crate::assembler::spec_rexb;
use crate::assembler::spec_rexr;
use crate::X64Reg;

verus! {

/// `xchgq %reg, (%ptr)`.
pub open spec fn enc_xchgq_rm(reg: X64Reg, ptr: X64Reg) -> Seq<u8> {
    rexwrb(reg, ptr) + seq![XCHG] + mem_operand(reg, ptr)
}

/// `xchgq %reg1, %reg2`: the one-byte `%rax` form when either is `%rax`.
pub open spec fn enc_xchgq_rr(reg1: X64Reg, reg2: X64Reg) -> Seq<u8> {
    if reg1 == X64Reg::RAX || reg2 == X64Reg::RAX {
        seq![REX | REXW | (spec_rexb(reg1) | spec_rexb(reg2)), 0x90 | reg1.spec_low() | reg2.spec_low()]
    } else {
        seq![
            REX | REXW | spec_rexb(reg1) | spec_rexr(reg2),
            0x87u8,
            MOD11 | reg1.spec_low() | reg2.spec_low() << 3,
        ]
    }
}

impl Assembler {
    /// Emits `xchgq %reg, (%ptr)`.
    pub fn emit_xchgq_rm(&mut self, reg: X64Reg, ptr: X64Reg)
        requires
            old(self).wf(),
        ensures
            final(self).appended(*old(self), enc_xchgq_rm(reg, ptr)),
    {
        self.emit_rexwrb(reg, ptr);
        self.emit_u8(XCHG);
        self.emit_mem_operand(reg, ptr);
        assert(self.bytes() =~= old(self).bytes() + enc_xchgq_rm(reg, ptr));
    }

    /// Emits `xchgq %reg1, %reg2`.
    pub fn emit_xchgq_rr(&mut self, reg1: X64Reg, reg2: X64Reg)
        requires
            old(self).wf(),
        ensures
            final(self).appended(*old(self), enc_xchgq_rr(reg1, reg2)),
    {
        if reg1 == X64Reg::RAX || reg2 == X64Reg::RAX {
            let rexb = Assembler::rexb(reg1) | Assembler::rexb(reg2);
            let prefix = REX | REXW | rexb;
            self.emit_u8(prefix);
            self.emit_u8(0x90 | reg1.low() | reg2.low());
        } else {
            let prefix = REX | REXW | Assembler::rexb(reg1) | Assembler::rexr(reg2);
            self.emit_u8(prefix);
            self.emit_u8(0x87);
            self.emit_u8(MOD11 | reg1.low() | reg2.low() << 3);
        }
        assert(self.bytes() =~= old(self).bytes() + enc_xchgq_rr(reg1, reg2));
    }
}

} // verus!
