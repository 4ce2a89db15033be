//! Arithmetic, logic, comparison, shift and division on JIT values.

use vstd::prelude::*;
use crate::assembler::add::enc_addl_ir;
use crate::assembler::add::enc_addl_rr;
use crate::assembler::and::enc_andl_ir;
use crate::assembler::bt::enc_btl_ir;
use crate::assembler::compare::enc_cmpl_rr;
use crate::assembler::div::enc_divl_r;
use crate::assembler::div::enc_idivl_r;
use crate::assembler::or::enc_orl_ir;
use crate::assembler::shift::enc_shift_ir;
use crate::assembler::sub::enc_subl_ir;
use crate::assembler::enc_alu_rr;
use crate::assembler::AND_R;
use crate::assembler::OR_R;
use crate::assembler::SAR;
use crate::assembler::SHL;
use crate::assembler::SHR;
use crate::assembler::SUB_R;
use crate::assembler::TEST;
use crate::recompiler::bind_step;
use crate::recompiler::emit_step;
use crate::recompiler::reg_in;
use crate::recompiler::specific_step;
use crate::recompiler::valid_value;
use crate::recompiler::ui::jit_values::spec_seti_u32;
use crate::recompiler::ui::jit_values::spec_setv_u32;
use crate::recompiler::RcState;
use crate::recompiler::Recompiler;
use crate::JITValue;
use crate::X64Reg;

verus! {

/// Binds `dest` and `src` together, then emits `op %src, %dest`.
pub open spec fn spec_alu_vv(s: RcState, op: u8, dest: JITValue, src: JITValue) -> RcState {
    let s1 = bind_step(s, seq![dest, src]);
    emit_step(s1, enc_alu_rr(op, reg_in(s1, src), reg_in(s1, dest)))
}

/// `dest |= src`.
pub open spec fn spec_orv_u32(s: RcState, dest: JITValue, src: JITValue) -> RcState {
    spec_alu_vv(s, OR_R, dest, src)
}

/// `dest |= imm32`.
pub open spec fn spec_ori_u32(s: RcState, dest: JITValue, imm32: u32) -> RcState {
    let s1 = bind_step(s, seq![dest]);
    emit_step(s1, enc_orl_ir(imm32, reg_in(s1, dest)))
}

/// Carry flag = bit `imm5` of `value`.
pub open spec fn spec_bti_u32(s: RcState, value: JITValue, imm5: u32) -> RcState {
    let s1 = bind_step(s, seq![value]);
    emit_step(s1, enc_btl_ir(imm5, reg_in(s1, value)))
}

/// `dest += src`.
pub open spec fn spec_addv_u32(s: RcState, dest: JITValue, src: JITValue) -> RcState {
    let s1 = bind_step(s, seq![dest, src]);
    emit_step(s1, enc_addl_rr(reg_in(s1, src), reg_in(s1, dest)))
}

/// `dest += imm32`.
pub open spec fn spec_addi_u32(s: RcState, dest: JITValue, imm32: i32) -> RcState {
    let s1 = bind_step(s, seq![dest]);
    emit_step(s1, enc_addl_ir(imm32, reg_in(s1, dest)))
}

/// `dest &= src`.
pub open spec fn spec_andv_u32(s: RcState, dest: JITValue, src: JITValue) -> RcState {
    spec_alu_vv(s, AND_R, dest, src)
}

/// `dest &= imm32`.
pub open spec fn spec_andi_u32(s: RcState, dest: JITValue, imm32: u32) -> RcState {
    let s1 = bind_step(s, seq![dest]);
    emit_step(s1, enc_andl_ir(imm32, reg_in(s1, dest)))
}

/// Flags from `value2 - value1`.
pub open spec fn spec_cmpv_u32(s: RcState, value1: JITValue, value2: JITValue) -> RcState {
    let s1 = bind_step(s, seq![value1, value2]);
    emit_step(s1, enc_cmpl_rr(reg_in(s1, value1), reg_in(s1, value2)))
}

/// Flags from `value1 & value2`.
pub open spec fn spec_testv_u32(s: RcState, value1: JITValue, value2: JITValue) -> RcState {
    let s1 = bind_step(s, seq![value1, value2]);
    emit_step(s1, enc_alu_rr(TEST, reg_in(s1, value1), reg_in(s1, value2)))
}

/// A shift of `value` by `imm5`, with `kind` the shift's opcode extension.
pub open spec fn spec_shift_u32(s: RcState, kind: u8, value: JITValue, imm5: u32) -> RcState {
    let s1 = bind_step(s, seq![value]);
    emit_step(s1, enc_shift_ir(kind, imm5, reg_in(s1, value)))
}

/// `value <<= imm5`.
pub open spec fn spec_slli_u32(s: RcState, value: JITValue, imm5: u32) -> RcState {
    spec_shift_u32(s, SHL, value, imm5)
}

/// `value >>= imm5`, logical.
pub open spec fn spec_srli_u32(s: RcState, value: JITValue, imm5: u32) -> RcState {
    spec_shift_u32(s, SHR, value, imm5)
}

/// `value >>= imm5`, arithmetic.
pub open spec fn spec_srai_u32(s: RcState, value: JITValue, imm5: u32) -> RcState {
    spec_shift_u32(s, SAR, value, imm5)
}

/// `dest -= src`.
pub open spec fn spec_subv_u32(s: RcState, dest: JITValue, src: JITValue) -> RcState {
    spec_alu_vv(s, SUB_R, dest, src)
}

/// `dest -= imm32`.
pub open spec fn spec_subi_u32(s: RcState, dest: JITValue, imm32: i32) -> RcState {
    let s1 = bind_step(s, seq![dest]);
    emit_step(s1, enc_subl_ir(imm32, reg_in(s1, dest)))
}

/// The set-up of a division: `quotient = dividend`, `remainder = 0`, the
/// quotient in `%rax` and the remainder in `%rdx`, then all three operands
/// bound together.
pub open spec fn spec_div_setup(
    s: RcState,
    dividend: JITValue,
    divisor: JITValue,
    quotient: JITValue,
    remainder: JITValue,
) -> RcState {
    let s1 = spec_setv_u32(s, quotient, dividend);
    let s2 = spec_seti_u32(s1, remainder, 0);
    let s3 = specific_step(s2, quotient, X64Reg::RAX);
    let s4 = specific_step(s3, remainder, X64Reg::RDX);
    bind_step(s4, seq![divisor, quotient, remainder])
}

/// Signed division: `quotient, remainder = dividend / divisor`.
pub open spec fn spec_divv_u32(
    s: RcState,
    dividend: JITValue,
    divisor: JITValue,
    quotient: JITValue,
    remainder: JITValue,
) -> RcState {
    let s5 = spec_div_setup(s, dividend, divisor, quotient, remainder);
    emit_step(s5, enc_idivl_r(reg_in(s5, divisor)))
}

/// Unsigned division: `quotient, remainder = dividend / divisor`.
pub open spec fn spec_divuv_u32(
    s: RcState,
    dividend: JITValue,
    divisor: JITValue,
    quotient: JITValue,
    remainder: JITValue,
) -> RcState {
    let s5 = spec_div_setup(s, dividend, divisor, quotient, remainder);
    emit_step(s5, enc_divl_r(reg_in(s5, divisor)))
}

impl Recompiler {
    fn bind_pair(&mut self, first: JITValue, second: JITValue) -> (regs: (X64Reg, X64Reg))
        requires
            old(self).wf(),
            valid_value(first),
            valid_value(second),
        ensures
            final(self).stepped(*old(self), bind_step(old(self).state(), seq![first, second])),
            regs.0 == reg_in(final(self).state(), first),
            regs.1 == reg_in(final(self).state(), second),
            final(self).state().bindings.contains_key(regs.0),
            final(self).state().bindings.contains_key(regs.1),
    {
        let values = vec![first, second];
        assert(values@ == seq![first, second]);
        let regs = self.bind_multivalue(values);
        (regs[0], regs[1])
    }

    /// `dest |= src`.
    pub fn orv_u32(&mut self, dest: JITValue, src: JITValue)
        requires
            old(self).wf(),
            valid_value(dest),
            valid_value(src),
        ensures
            final(self).stepped(*old(self), spec_orv_u32(old(self).state(), dest, src)),
    {
        let (dest_reg, src_reg) = self.bind_pair(dest, src);
        self.assembler.emit_orl_rr(src_reg, dest_reg);
    }

    /// `dest |= imm32`.
    pub fn ori_u32(&mut self, dest: JITValue, imm32: u32)
        requires
            old(self).wf(),
            valid_value(dest),
        ensures
            final(self).stepped(*old(self), spec_ori_u32(old(self).state(), dest, imm32)),
    {
        let dest_reg = self.bind_value(dest);
        self.assembler.emit_orl_ir(imm32, dest_reg);
    }

    /// Copies bit `imm5` of `value` into the carry flag.
    pub fn bti_u32(&mut self, value: JITValue, imm5: u32)
        requires
            old(self).wf(),
            valid_value(value),
            imm5 < 32,
        ensures
            final(self).stepped(*old(self), spec_bti_u32(old(self).state(), value, imm5)),
    {
        let reg = self.bind_value(value);
        self.assembler.emit_btl_ir(imm5, reg);
    }

    /// `dest += src`.
    pub fn addv_u32(&mut self, dest: JITValue, src: JITValue)
        requires
            old(self).wf(),
            valid_value(dest),
            valid_value(src),
        ensures
            final(self).stepped(*old(self), spec_addv_u32(old(self).state(), dest, src)),
    {
        let (dest_reg, src_reg) = self.bind_pair(dest, src);
        self.assembler.emit_addl_rr(src_reg, dest_reg);
    }

    /// `dest += imm32`.
    pub fn addi_u32(&mut self, dest: JITValue, imm32: i32)
        requires
            old(self).wf(),
            valid_value(dest),
        ensures
            final(self).stepped(*old(self), spec_addi_u32(old(self).state(), dest, imm32)),
    {
        let dest_reg = self.bind_value(dest);
        let _ = self.assembler.emit_addl_ir(imm32, dest_reg);
    }

    /// `dest &= src`.
    pub fn andv_u32(&mut self, dest: JITValue, src: JITValue)
        requires
            old(self).wf(),
            valid_value(dest),
            valid_value(src),
        ensures
            final(self).stepped(*old(self), spec_andv_u32(old(self).state(), dest, src)),
    {
        let (dest_reg, src_reg) = self.bind_pair(dest, src);
        self.assembler.emit_andl_rr(src_reg, dest_reg);
    }

    /// `dest &= imm32`.
    pub fn andi_u32(&mut self, dest: JITValue, imm32: u32)
        requires
            old(self).wf(),
            valid_value(dest),
        ensures
            final(self).stepped(*old(self), spec_andi_u32(old(self).state(), dest, imm32)),
    {
        let dest_reg = self.bind_value(dest);
        self.assembler.emit_andl_ir(imm32, dest_reg);
    }

    /// Sets the flags from `value2 - value1`.
    pub fn cmpv_u32(&mut self, value1: JITValue, value2: JITValue)
        requires
            old(self).wf(),
            valid_value(value1),
            valid_value(value2),
        ensures
            final(self).stepped(*old(self), spec_cmpv_u32(old(self).state(), value1, value2)),
    {
        let (value1_reg, value2_reg) = self.bind_pair(value1, value2);
        self.assembler.emit_cmpl_rr(value1_reg, value2_reg);
    }

    /// Sets the flags from `value1 & value2`.
    pub fn testv_u32(&mut self, value1: JITValue, value2: JITValue)
        requires
            old(self).wf(),
            valid_value(value1),
            valid_value(value2),
        ensures
            final(self).stepped(*old(self), spec_testv_u32(old(self).state(), value1, value2)),
    {
        let (value1_reg, value2_reg) = self.bind_pair(value1, value2);
        self.assembler.emit_testl_rr(value1_reg, value2_reg);
    }

    /// `value <<= imm5`.
    pub fn slli_u32(&mut self, value: JITValue, imm5: u32)
        requires
            old(self).wf(),
            valid_value(value),
        ensures
            final(self).stepped(*old(self), spec_slli_u32(old(self).state(), value, imm5)),
    {
        let reg = self.bind_value(value);
        self.assembler.emit_shll_ir(imm5, reg);
    }

    /// `value >>= imm5`, logical.
    pub fn srli_u32(&mut self, value: JITValue, imm5: u32)
        requires
            old(self).wf(),
            valid_value(value),
        ensures
            final(self).stepped(*old(self), spec_srli_u32(old(self).state(), value, imm5)),
    {
        let reg = self.bind_value(value);
        self.assembler.emit_shrl_ir(imm5, reg);
    }

    /// `value >>= imm5`, arithmetic.
    pub fn srai_u32(&mut self, value: JITValue, imm5: u32)
        requires
            old(self).wf(),
            valid_value(value),
        ensures
            final(self).stepped(*old(self), spec_srai_u32(old(self).state(), value, imm5)),
    {
        let reg = self.bind_value(value);
        self.assembler.emit_sarl_ir(imm5, reg);
    }

    /// `dest -= src`.
    pub fn subv_u32(&mut self, dest: JITValue, src: JITValue)
        requires
            old(self).wf(),
            valid_value(dest),
            valid_value(src),
        ensures
            final(self).stepped(*old(self), spec_subv_u32(old(self).state(), dest, src)),
    {
        let (dest_reg, src_reg) = self.bind_pair(dest, src);
        self.assembler.emit_subl_rr(src_reg, dest_reg);
    }

    /// `dest -= imm32`.
    pub fn subi_u32(&mut self, dest: JITValue, imm32: i32)
        requires
            old(self).wf(),
            valid_value(dest),
        ensures
            final(self).stepped(*old(self), spec_subi_u32(old(self).state(), dest, imm32)),
    {
        let dest_reg = self.bind_value(dest);
        let _ = self.assembler.emit_subl_ir(imm32, dest_reg);
    }

    fn div_setup(
        &mut self,
        dividend: JITValue,
        divisor: JITValue,
        quotient: JITValue,
        remainder: JITValue,
    ) -> (divisor_reg: X64Reg)
        requires
            old(self).wf(),
            valid_value(dividend),
            valid_value(divisor),
            valid_value(quotient),
            valid_value(remainder),
        ensures
            final(self).stepped(
                *old(self),
                spec_div_setup(old(self).state(), dividend, divisor, quotient, remainder),
            ),
            divisor_reg == reg_in(final(self).state(), divisor),
    {
        self.setv_u32(quotient, dividend);
        self.seti_u32(remainder, 0);
        self.bind_specific_reg(quotient, X64Reg::RAX);
        self.bind_specific_reg(remainder, X64Reg::RDX);
        let values = vec![divisor, quotient, remainder];
        assert(values@ == seq![divisor, quotient, remainder]);
        let regs = self.bind_multivalue(values);
        regs[0]
    }

    /// Signed division of `dividend` by `divisor` into `quotient` and
    /// `remainder`.
    pub fn divv_u32(
        &mut self,
        dividend: JITValue,
        divisor: JITValue,
        quotient: JITValue,
        remainder: JITValue,
    )
        requires
            old(self).wf(),
            valid_value(dividend),
            valid_value(divisor),
            valid_value(quotient),
            valid_value(remainder),
        ensures
            final(self).stepped(
                *old(self),
                spec_divv_u32(old(self).state(), dividend, divisor, quotient, remainder),
            ),
    {
        let divisor_reg = self.div_setup(dividend, divisor, quotient, remainder);
        self.assembler.emit_idivl_r(divisor_reg);
    }

    /// Unsigned division of `dividend` by `divisor` into `quotient` and
    /// `remainder`.
    pub fn divuv_u32(
        &mut self,
        dividend: JITValue,
        divisor: JITValue,
        quotient: JITValue,
        remainder: JITValue,
    )
        requires
            old(self).wf(),
            valid_value(dividend),
            valid_value(divisor),
            valid_value(quotient),
            valid_value(remainder),
        ensures
            final(self).stepped(
                *old(self),
                spec_divuv_u32(old(self).state(), dividend, divisor, quotient, remainder),
            ),
    {
        let divisor_reg = self.div_setup(dividend, divisor, quotient, remainder);
        self.assembler.emit_divl_r(divisor_reg);
    }
}

} // verus!
