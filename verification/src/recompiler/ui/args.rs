//! Placing values in the registers that carry the arguments of a call.

use vstd::prelude::*;
use crate::allocator::is_bound;
use crate::allocator::registers::spill;
use crate::allocator::registers::swapped;
use crate::assembler::enc_alu_rr;
use crate::assembler::ui::enc_transfers;
use crate::assembler::xchg::enc_xchgq_rr;
use crate::assembler::XOR;
use crate::recompiler::reg_in;
use crate::recompiler::specific_step;
use crate::recompiler::valid_value;
use crate::recompiler::RcState;
use crate::recompiler::Recompiler;
use crate::ArgNumber;
use crate::GenericValue;
use crate::JITValue;
use crate::StackOffset;
use crate::Transfer;
use crate::X64Reg;

verus! {

/// Puts `value` in `reg`: a value already in a register has the two
/// registers' bindings exchanged, with an `xchgq` unless it is in `reg`
/// already; any other value is loaded into `reg` once what `reg` held is
/// stored.
pub open spec fn spec_set_arg(s: RcState, value: JITValue, reg: X64Reg) -> RcState {
    if is_bound(s.bindings, value) {
        let r = reg_in(s, value);
        RcState {
            bindings: swapped(s.bindings, r, reg),
            code: s.code + (if r != reg {
                enc_xchgq_rr(r, reg)
            } else {
                Seq::empty()
            }),
            frame: s.frame,
        }
    } else {
        specific_step(s, value, reg)
    }
}

/// Clears `reg` for a call: what it held is stored and it is unbound, then
/// it is zeroed with `xorl`.
pub open spec fn spec_zero_arg(s: RcState, reg: X64Reg) -> RcState {
    RcState {
        bindings: s.bindings.remove(reg),
        code: s.code + enc_transfers(spill(s.bindings, reg), StackOffset(s.frame as i32))
            + enc_alu_rr(XOR, reg, reg),
        frame: s.frame,
    }
}

impl Recompiler {
    fn set_argn(&mut self, value: JITValue, n: ArgNumber)
        requires
            old(self).wf(),
            valid_value(value),
        ensures
            final(self).stepped(
                *old(self),
                spec_set_arg(old(self).state(), value, X64Reg::spec_argn_reg(n)),
            ),
    {
        let arg_reg = X64Reg::argn_reg(n);
        let ghost b = self.allocator.bindings();
        proof {
            self.lemma_wf();
        }
        match self.allocator.value_to_reg(&value) {
            Some(value_reg) => {
                proof {
                    assert(is_bound(b, value));
                    assert(b.contains_key(crate::recompiler::reg_of(b, value)));
                    assert(crate::recompiler::reg_of(b, value) == value_reg);
                }
                let transfers = self.allocator.swap_specific_bindings(value_reg, arg_reg);
                let stack = self.allocator.full_stack();
                self.assembler.emit_transfers(transfers.0, stack);
                proof {
                    if value_reg != arg_reg {
                        let t = Transfer {
                            reg: value_reg,
                            other: GenericValue::X64Reg(arg_reg),
                            dir: crate::Direction::FromReg,
                        };
                        assert(seq![t].drop_last() =~= Seq::<Transfer>::empty());
                        assert(seq![t].last() == t);
                        assert(enc_transfers(Seq::<Transfer>::empty(), stack) == Seq::<u8>::empty());
                        assert(transfers.0@ == seq![t]);
                        assert(enc_transfers(seq![t], stack) =~= enc_xchgq_rr(value_reg, arg_reg));
                    } else {
                        assert(transfers.0@ == Seq::<Transfer>::empty());
                    }
                    assert(stack == StackOffset(old(self).state().frame as i32));
                    let nb = self.allocator.bindings();
                    assert forall|r: X64Reg| #[trigger] nb.contains_key(r) implies r != X64Reg::RSP
                        && valid_value(nb[r]) by {
                        if r == value_reg {
                            assert(b.contains_key(arg_reg));
                        } else if r == arg_reg {
                            assert(b.contains_key(value_reg));
                        } else {
                            assert(b.contains_key(r));
                        }
                    }
                    assert(self.state().code =~= spec_set_arg(old(self).state(), value, arg_reg).code);
                }
            },
            None => {
                self.bind_specific_reg(value, arg_reg);
            },
        }
    }

    fn zero_argn(&mut self, n: ArgNumber)
        requires
            old(self).wf(),
        ensures
            final(self).stepped(*old(self), spec_zero_arg(old(self).state(), X64Reg::spec_argn_reg(n))),
    {
        let arg_reg = X64Reg::argn_reg(n);
        let ghost b = self.allocator.bindings();
        proof {
            self.lemma_wf();
        }
        let transfers = self.allocator.unbind_x64_reg(arg_reg);
        let stack = self.allocator.full_stack();
        proof {
            assert forall|i: int| 0 <= i < transfers.0.len() implies crate::assembler::ui::transfer_ok(
                #[trigger] transfers.0@[i],
                stack,
            ) by {
                assert(valid_value(b[arg_reg]));
            }
        }
        self.assembler.emit_transfers(transfers.0, stack);
        self.assembler.emit_xorl_rr(arg_reg, arg_reg);
        proof {
            let nb = self.allocator.bindings();
            assert forall|r: X64Reg| #[trigger] nb.contains_key(r) implies r != X64Reg::RSP && valid_value(
                nb[r],
            ) by {
                assert(b.contains_key(r));
            }
            assert(self.state().code =~= spec_zero_arg(old(self).state(), arg_reg).code);
        }
    }

    /// Zeroes the first argument register, storing what it held.
    pub fn zero_arg1(&mut self)
        requires
            old(self).wf(),
        ensures
            final(self).stepped(*old(self), spec_zero_arg(old(self).state(), X64Reg::RDI)),
    {
        self.zero_argn(ArgNumber::Arg1);
    }

    /// Zeroes the second argument register, storing what it held.
    pub fn zero_arg2(&mut self)
        requires
            old(self).wf(),
        ensures
            final(self).stepped(*old(self), spec_zero_arg(old(self).state(), X64Reg::RSI)),
    {
        self.zero_argn(ArgNumber::Arg2);
    }

    /// Zeroes the third argument register, storing what it held.
    pub fn zero_arg3(&mut self)
        requires
            old(self).wf(),
        ensures
            final(self).stepped(*old(self), spec_zero_arg(old(self).state(), X64Reg::RDX)),
    {
        self.zero_argn(ArgNumber::Arg3);
    }

    /// Zeroes the fourth argument register, storing what it held.
    pub fn zero_arg4(&mut self)
        requires
            old(self).wf(),
        ensures
            final(self).stepped(*old(self), spec_zero_arg(old(self).state(), X64Reg::RCX)),
    {
        self.zero_argn(ArgNumber::Arg4);
    }

    /// Zeroes the fifth argument register, storing what it held.
    pub fn zero_arg5(&mut self)
        requires
            old(self).wf(),
        ensures
            final(self).stepped(*old(self), spec_zero_arg(old(self).state(), X64Reg::R8)),
    {
        self.zero_argn(ArgNumber::Arg5);
    }

    /// Zeroes the sixth argument register, storing what it held.
    pub fn zero_arg6(&mut self)
        requires
            old(self).wf(),
        ensures
            final(self).stepped(*old(self), spec_zero_arg(old(self).state(), X64Reg::R9)),
    {
        self.zero_argn(ArgNumber::Arg6);
    }

    /// Puts `value` in the first argument register.
    pub fn set_arg1(&mut self, value: JITValue)
        requires
            old(self).wf(),
            valid_value(value),
        ensures
            final(self).stepped(*old(self), spec_set_arg(old(self).state(), value, X64Reg::RDI)),
    {
        self.set_argn(value, ArgNumber::Arg1);
    }

    /// Puts `value` in the second argument register.
    pub fn set_arg2(&mut self, value: JITValue)
        requires
            old(self).wf(),
            valid_value(value),
        ensures
            final(self).stepped(*old(self), spec_set_arg(old(self).state(), value, X64Reg::RSI)),
    {
        self.set_argn(value, ArgNumber::Arg2);
    }

    /// Puts `value` in the third argument register.
    pub fn set_arg3(&mut self, value: JITValue)
        requires
            old(self).wf(),
            valid_value(value),
        ensures
            final(self).stepped(*old(self), spec_set_arg(old(self).state(), value, X64Reg::RDX)),
    {
        self.set_argn(value, ArgNumber::Arg3);
    }

    /// Puts `value` in the fourth argument register.
    pub fn set_arg4(&mut self, value: JITValue)
        requires
            old(self).wf(),
            valid_value(value),
        ensures
            final(self).stepped(*old(self), spec_set_arg(old(self).state(), value, X64Reg::RCX)),
    {
        self.set_argn(value, ArgNumber::Arg4);
    }

    /// Puts `value` in the fifth argument register.
    pub fn set_arg5(&mut self, value: JITValue)
        requires
            old(self).wf(),
            valid_value(value),
        ensures
            final(self).stepped(*old(self), spec_set_arg(old(self).state(), value, X64Reg::R8)),
    {
        self.set_argn(value, ArgNumber::Arg5);
    }

    /// Puts `value` in the sixth argument register.
    pub fn set_arg6(&mut self, value: JITValue)
        requires
            old(self).wf(),
            valid_value(value),
        ensures
            final(self).stepped(*old(self), spec_set_arg(old(self).state(), value, X64Reg::R9)),
    {
        self.set_argn(value, ArgNumber::Arg6);
    }
}

} // verus!
