//! Emulator registers, local variables, pointers, loads and stores.

use vstd::prelude::*;
use crate::assembler::add::enc_addq_ir;
use crate::assembler::mov::enc_movl_ir;
use crate::assembler::mov::enc_movl_mr;
use crate::assembler::mov::enc_movl_mr_offset;
use crate::assembler::mov::enc_movl_rm_offset;
use crate::assembler::mov::enc_movl_rr;
use crate::assembler::mov::enc_movq_mr;
use crate::assembler::mov::enc_movq_mr_offset;
use crate::assembler::enc_alu_rr;
use crate::assembler::XOR;
use crate::allocator::is_bound;
use crate::recompiler::bind_step;
use crate::recompiler::emit_step;
use crate::recompiler::has_slot;
use crate::recompiler::reg_in;
use crate::recompiler::valid_value;
use crate::recompiler::RcState;
use crate::recompiler::Recompiler;
use crate::EmuReg;
use crate::EmuRegNameType;
use crate::JITValue;
use crate::StackOffset;
use crate::StackOffsetType;
use crate::Variable;
use crate::X64Reg;

verus! {

/// `dest = src`, for an immediate: `xorl` of the register with itself for
/// zero, `movl` otherwise.
pub open spec fn spec_seti_u32(s: RcState, dest: JITValue, src: u32) -> RcState {
    let s1 = bind_step(s, seq![dest]);
    let r = reg_in(s1, dest);
    emit_step(s1, if src == 0 { enc_alu_rr(XOR, r, r) } else { enc_movl_ir(src, r) })
}

/// `dest = src`, for a value: from its register if it is bound once `dest`
/// is, else from its home on the stack.
pub open spec fn spec_setv_u32(s: RcState, dest: JITValue, src: JITValue) -> RcState {
    let s1 = bind_step(s, seq![dest]);
    let r = reg_in(s1, dest);
    emit_step(
        s1,
        if is_bound(s1.bindings, src) {
            enc_movl_rr(reg_in(s1, src), r)
        } else {
            enc_movl_mr_offset(X64Reg::RSP, r, (s1.frame - src.spec_position().0) as i32)
        },
    )
}

/// `dest = value` with `value` bound to a register and then one op applied
/// to it alone.
pub open spec fn spec_unary(s: RcState, value: JITValue, code: spec_fn(X64Reg) -> Seq<u8>) -> RcState {
    let s1 = bind_step(s, seq![value]);
    emit_step(s1, code(reg_in(s1, value)))
}

/// `value = *(u32 *) value`.
pub open spec fn spec_deref_u32(s: RcState, value: JITValue) -> RcState {
    spec_unary(s, value, |r: X64Reg| enc_movl_mr(r, r))
}

/// `value = *(u64 *) value`.
pub open spec fn spec_deref_u64(s: RcState, value: JITValue) -> RcState {
    spec_unary(s, value, |r: X64Reg| enc_movq_mr(r, r))
}

/// `value = ((u32 *) value)[idx]`.
pub open spec fn spec_index_u32(s: RcState, value: JITValue, idx: StackOffsetType) -> RcState {
    spec_unary(s, value, |r: X64Reg| enc_movl_mr_offset(r, r, (idx * 4) as i32))
}

/// `((u32 *) ptr)[idx] = result`, with both bound together.
pub open spec fn spec_index_mut_u32(
    s: RcState,
    ptr: JITValue,
    result: JITValue,
    idx: StackOffsetType,
) -> RcState {
    let s1 = bind_step(s, seq![ptr, result]);
    emit_step(s1, enc_movl_rm_offset(reg_in(s1, result), reg_in(s1, ptr), (idx * 4) as i32))
}

/// The offset from `%rsp` of the `ptr_idx`-th emulator pointer in `rc`: the
/// pointers lie just below the native words, the first at the bottom.
pub open spec fn ptr_offset(rc: Recompiler, ptr_idx: int) -> int {
    rc.state().frame - rc.native_ptrs() - rc.emulator_ptrs() + ptr_idx * 8
}

/// `dest = ` the `ptr_idx`-th emulator pointer.
pub open spec fn spec_load_ptr(rc: Recompiler, dest: JITValue, ptr_idx: int) -> RcState {
    let s1 = bind_step(rc.state(), seq![dest]);
    emit_step(
        s1,
        enc_movq_mr_offset(X64Reg::RSP, reg_in(s1, dest), ptr_offset(rc, ptr_idx) as i32),
    )
}

impl Recompiler {
    /// The emulator register named `reg`, if it was loaded.
    pub fn reg(&self, reg: EmuRegNameType) -> (r: Option<JITValue>)
        requires
            self.wf(),
        ensures
            match r {
                Some(v) => exists|i: int|
                    0 <= i < self.emu_regs().len() && #[trigger] self.emu_regs()[i].name.0 == reg
                        && v == JITValue::EmuReg(self.emu_regs()[i]) && forall|j: int|
                        0 <= j < i ==> self.emu_regs()[j].name.0 != reg,
                None => forall|i: int|
                    0 <= i < self.emu_regs().len() ==> #[trigger] self.emu_regs()[i].name.0 != reg,
            },
    {
        let regs = self.allocator.emulator_regs();
        let mut i: usize = 0;
        while i < regs.len()
            invariant
                0 <= i <= regs.len(),
                regs@ == self.emu_regs(),
                forall|j: int| 0 <= j < i ==> regs@[j].name.0 != reg,
            decreases regs.len() - i,
        {
            if regs[i].name.0 == reg {
                return Some(JITValue::EmuReg(regs[i]));
            }
            i = i + 1;
        }
        None
    }

    /// A new one-byte local variable.
    pub fn new_u8(&mut self) -> (v: JITValue)
        requires
            old(self).wf(),
            old(self).state().frame + 1 <= i32::MAX,
        ensures
            final(self).grew(*old(self), 1, enc_addq_ir(-1i32, X64Reg::RSP)),
            v == JITValue::Variable(
                Variable {
                    position: StackOffset((old(self).state().frame + 1) as i32),
                    size: StackOffset(1),
                },
            ),
    {
        self.new_variable(StackOffset(1))
    }

    /// A new two-byte local variable.
    pub fn new_u16(&mut self) -> (v: JITValue)
        requires
            old(self).wf(),
            old(self).state().frame + 2 <= i32::MAX,
        ensures
            final(self).grew(*old(self), 2, enc_addq_ir(-2i32, X64Reg::RSP)),
            v == JITValue::Variable(
                Variable {
                    position: StackOffset((old(self).state().frame + 2) as i32),
                    size: StackOffset(2),
                },
            ),
    {
        self.new_variable(StackOffset(2))
    }

    /// A new four-byte local variable.
    pub fn new_u32(&mut self) -> (v: JITValue)
        requires
            old(self).wf(),
            old(self).state().frame + 4 <= i32::MAX,
        ensures
            final(self).grew(*old(self), 4, enc_addq_ir(-4i32, X64Reg::RSP)),
            v == JITValue::Variable(
                Variable {
                    position: StackOffset((old(self).state().frame + 4) as i32),
                    size: StackOffset(4),
                },
            ),
            valid_value(v),
    {
        proof {
            self.lemma_wf();
        }
        self.new_variable(StackOffset(4))
    }

    /// A new eight-byte local variable.
    pub fn new_u64(&mut self) -> (v: JITValue)
        requires
            old(self).wf(),
            old(self).state().frame + 8 <= i32::MAX,
        ensures
            final(self).grew(*old(self), 8, enc_addq_ir(-8i32, X64Reg::RSP)),
            v == JITValue::Variable(
                Variable {
                    position: StackOffset((old(self).state().frame + 8) as i32),
                    size: StackOffset(8),
                },
            ),
            valid_value(v),
    {
        proof {
            self.lemma_wf();
        }
        self.new_variable(StackOffset(8))
    }

    /// Loads the `ptr_idx`-th emulator pointer into `dest`'s register.
    pub fn load_ptr(&mut self, dest: JITValue, ptr_idx: usize)
        requires
            old(self).wf(),
            valid_value(dest),
            old(self).state().frame + ptr_idx * 8 <= i32::MAX,
        ensures
            final(self).stepped(*old(self), spec_load_ptr(*old(self), dest, ptr_idx as int)),
    {
        let reg = self.bind_value(dest);
        proof {
            self.lemma_wf();
        }
        let offset = self.allocator.ptr_position(ptr_idx);
        self.assembler.emit_movq_mr_offset(X64Reg::RSP, reg, offset);
    }

    /// `value = ((u32 *) value)[idx]`.
    pub fn index_u32(&mut self, value: JITValue, idx: StackOffsetType)
        requires
            old(self).wf(),
            valid_value(value),
            i32::MIN <= idx * 4 <= i32::MAX,
        ensures
            final(self).stepped(*old(self), spec_index_u32(old(self).state(), value, idx)),
    {
        let reg = self.bind_value(value);
        self.assembler.emit_movl_mr_offset(reg, reg, StackOffset(idx * 4));
    }

    /// `((u32 *) ptr)[idx] = result`.
    pub fn index_mut_u32(&mut self, ptr: JITValue, result: JITValue, idx: StackOffsetType)
        requires
            old(self).wf(),
            valid_value(ptr),
            valid_value(result),
            i32::MIN <= idx * 4 <= i32::MAX,
        ensures
            final(self).stepped(
                *old(self),
                spec_index_mut_u32(old(self).state(), ptr, result, idx),
            ),
    {
        let values = vec![ptr, result];
        assert(values@ == seq![ptr, result]);
        let regs = self.bind_multivalue(values);
        let ptr_reg = regs[0];
        let result_reg = regs[1];
        self.assembler.emit_movl_rm_offset(result_reg, ptr_reg, StackOffset(idx * 4));
    }

    /// `value = *(u32 *) value`.
    pub fn deref_u32(&mut self, value: JITValue)
        requires
            old(self).wf(),
            valid_value(value),
        ensures
            final(self).stepped(
                *old(self),
                spec_deref_u32(old(self).state(), value),
            ),
    {
        let reg = self.bind_value(value);
        self.assembler.emit_movl_mr(reg, reg);
    }

    /// `value = *(u64 *) value`.
    pub fn deref_u64(&mut self, value: JITValue)
        requires
            old(self).wf(),
            valid_value(value),
        ensures
            final(self).stepped(
                *old(self),
                spec_deref_u64(old(self).state(), value),
            ),
    {
        let reg = self.bind_value(value);
        self.assembler.emit_movq_mr(reg, reg);
    }

    /// `dest = src`.
    pub fn seti_u32(&mut self, dest: JITValue, src: u32)
        requires
            old(self).wf(),
            valid_value(dest),
        ensures
            final(self).stepped(*old(self), spec_seti_u32(old(self).state(), dest, src)),
    {
        let dest_reg = self.bind_value(dest);
        if src == 0 {
            self.assembler.emit_xorl_rr(dest_reg, dest_reg);
        } else {
            self.assembler.emit_movl_ir(src, dest_reg);
        }
    }

    /// `dest = src`.
    pub fn setv_u32(&mut self, dest: JITValue, src: JITValue)
        requires
            old(self).wf(),
            valid_value(dest),
            has_slot(src),
        ensures
            final(self).stepped(*old(self), spec_setv_u32(old(self).state(), dest, src)),
    {
        let dest_reg = self.bind_value(dest);
        proof {
            self.lemma_wf();
        }
        match self.allocator.value_to_reg(&src) {
            Some(src_reg) => {
                proof {
                    let b = self.allocator.bindings();
                    assert(is_bound(b, src));
                    assert(b.contains_key(crate::recompiler::reg_of(b, src)));
                }
                self.assembler.emit_movl_rr(src_reg, dest_reg);
            },
            None => {
                let offset = self.allocator.value_position(&src);
                self.assembler.emit_movl_mr_offset(X64Reg::RSP, dest_reg, offset);
            },
        }
    }
}

} // verus!
