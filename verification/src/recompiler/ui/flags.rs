//! Setting and clearing flags.

use vstd::prelude::*;
use crate::assembler::compare::enc_cmpl_rr;
use crate::assembler::CLC;
use crate::assembler::STC;
use crate::allocator::is_bound;
use crate::allocator::queues::first_place;
use crate::recompiler::emit_step;
use crate::recompiler::Recompiler;
use crate::Idx;
use crate::JITValue;
use crate::Transfer;
use crate::X64Reg;

verus! {

/// The code of `set_carry`.
pub open spec fn set_carry_code() -> Seq<u8> {
    seq![STC]
}

/// The code of `clear_carry`.
pub open spec fn clear_carry_code() -> Seq<u8> {
    seq![CLC]
}

/// The code of `set_zero` and `clear_signed`: `%eax` compared with itself.
pub open spec fn self_compare_code() -> Seq<u8> {
    enc_cmpl_rr(X64Reg::RAX, X64Reg::RAX)
}

impl Recompiler {
    /// Restores the saved flags at the first place of their queue. The
    /// recompiler binds only values with a home on the stack, so no flags
    /// are ever saved in a register and nothing is emitted.
    pub fn load_flags(&mut self)
        requires
            old(self).wf(),
        ensures
            final(self).stepped(*old(self), old(self).state()),
    {
        let ghost b = self.allocator.bindings();
        proof {
            self.lemma_wf();
        }
        let transfers = self.allocator.unbind_flags();
        let stack = self.allocator.full_stack();
        proof {
            let v = JITValue::Flags(Idx(first_place(b, false)));
            if is_bound(b, v) {
                let r = choose|r: X64Reg| #[trigger] b.contains_key(r) && b[r] == v;
                assert(b[r].has_home());
            }
            assert(transfers.0@ == Seq::<Transfer>::empty());
        }
        self.assembler.emit_transfers(transfers.0, stack);
        proof {
            assert(self.assembler.bytes() =~= old(self).assembler.bytes());
        }
    }

    /// Sets the carry flag.
    pub fn set_carry(&mut self)
        requires
            old(self).wf(),
        ensures
            final(self).stepped(*old(self), emit_step(old(self).state(), set_carry_code())),
    {
        self.assembler.emit_stc();
    }

    /// Clears the carry flag.
    pub fn clear_carry(&mut self)
        requires
            old(self).wf(),
        ensures
            final(self).stepped(*old(self), emit_step(old(self).state(), clear_carry_code())),
    {
        self.assembler.emit_clc();
    }

    /// Sets the zero flag, by comparing `%rax` with itself.
    pub fn set_zero(&mut self)
        requires
            old(self).wf(),
        ensures
            final(self).stepped(
                *old(self),
                emit_step(old(self).state(), self_compare_code()),
            ),
    {
        self.assembler.emit_cmpl_rr(X64Reg::RAX, X64Reg::RAX);
    }

    /// Clears the sign flag, by comparing `%rax` with itself.
    pub fn clear_signed(&mut self)
        requires
            old(self).wf(),
        ensures
            final(self).stepped(
                *old(self),
                emit_step(old(self).state(), self_compare_code()),
            ),
    {
        self.assembler.emit_cmpl_rr(X64Reg::RAX, X64Reg::RAX);
    }
}

} // verus!
