//! What each recompiler operation does, in terms of the x86-64 instruction
//! it appends once its values are bound: the opcode, and which register is
//! the source and which the operand that is written, as the Intel manual
//! encodes them (see `assembler::x86`); the condition each jump tests; the
//! flag setters; and where the argument registers' values come from. Also
//! the order of the saves around a call and on entry and exit, the stack
//! alignment at a call, the layout of the emulator pointers on entry, and
//! the offsets at which the emulator registers are read on entry and written
//! back on exit.

use vstd::prelude::*;
use crate::allocator::is_bound;
use crate::allocator::registers::keep;
use crate::allocator::registers::spill;
use crate::assembler::ui::enc_transfers;
use crate::assembler::stack::enc_pushq_i;
use crate::assembler::XOR;
use crate::assembler::x86::hi;
use crate::assembler::x86::lemma_enc_addq_rsp;
use crate::assembler::x86::lemma_enc_alu_rr;
use crate::assembler::x86::lemma_enc_xchgq;
use crate::assembler::x86::lemma_enc_imm_forms;
use crate::assembler::x86::lemma_enc_mem_forms;
use crate::assembler::x86::lemma_enc_movl_ir;
use crate::assembler::x86::lemma_enc_r_forms;
use crate::assembler::x86::lemma_enc_rr_forms;
use crate::assembler::x86::lo;
use crate::assembler::x86::modrm_rr;
use crate::assembler::x86::rex;
use crate::assembler::x86::x86_addq_rsp;
use crate::assembler::x86::x86_alu_imm;
use crate::assembler::x86::x86_jcc;
use crate::assembler::x86::x86_xchgq;
use crate::assembler::x86::x86_alu_imm32;
use crate::assembler::x86::x86_load;
use crate::assembler::x86::x86_pop;
use crate::assembler::x86::x86_push;
use crate::assembler::x86::x86_r;
use crate::assembler::x86::x86_rr;
use crate::assembler::x86::x86_shift;
use crate::assembler::x86::x86_store;
use crate::assembler::le32;
use crate::recompiler::abi::copy_in;
use crate::recompiler::abi::copy_out;
use crate::recompiler::abi::load_code;
use crate::recompiler::abi::loaded_regs;
use crate::recompiler::abi::push_ptrs;
use crate::recompiler::abi::pops_from;
use crate::recompiler::abi::pushes_to;
use crate::recompiler::bind_step;
use crate::recompiler::emit_step;
use crate::recompiler::pop_bound;
use crate::recompiler::push_bound;
use crate::recompiler::reg_in;
use crate::recompiler::ui::control_flow::call_align;
use crate::recompiler::ui::args::spec_set_arg;
use crate::recompiler::ui::args::spec_zero_arg;
use crate::recompiler::ui::control_flow::call_code;
use crate::recompiler::ui::flags::clear_carry_code;
use crate::recompiler::ui::flags::self_compare_code;
use crate::recompiler::ui::flags::set_carry_code;
use crate::recompiler::ui::control_flow::call_opcode;
use crate::recompiler::ui::control_flow::jc_opcode;
use crate::recompiler::ui::control_flow::jmp_opcode;
use crate::recompiler::ui::control_flow::jnc_opcode;
use crate::recompiler::ui::control_flow::jnl_opcode;
use crate::recompiler::ui::control_flow::jns_opcode;
use crate::recompiler::ui::control_flow::jnz_opcode;
use crate::recompiler::ui::control_flow::js_opcode;
use crate::recompiler::ui::control_flow::jz_opcode;
use crate::recompiler::ui::control_flow::pushed_frame;
use crate::recompiler::ui::jit_values::ptr_offset;
use crate::recompiler::ui::jit_values::spec_deref_u32;
use crate::recompiler::ui::jit_values::spec_deref_u64;
use crate::recompiler::ui::jit_values::spec_index_mut_u32;
use crate::recompiler::ui::jit_values::spec_index_u32;
use crate::recompiler::ui::jit_values::spec_load_ptr;
use crate::recompiler::ui::jit_values::spec_seti_u32;
use crate::recompiler::ui::jit_values::spec_setv_u32;
use crate::recompiler::ui::operations::spec_addi_u32;
use crate::recompiler::ui::operations::spec_addv_u32;
use crate::recompiler::ui::operations::spec_andi_u32;
use crate::recompiler::ui::operations::spec_andv_u32;
use crate::recompiler::ui::operations::spec_bti_u32;
use crate::recompiler::ui::operations::spec_cmpv_u32;
use crate::recompiler::ui::operations::spec_div_setup;
use crate::recompiler::ui::operations::spec_divuv_u32;
use crate::recompiler::ui::operations::spec_divv_u32;
use crate::recompiler::ui::operations::spec_ori_u32;
use crate::recompiler::ui::operations::spec_orv_u32;
use crate::recompiler::ui::operations::spec_slli_u32;
use crate::recompiler::ui::operations::spec_srai_u32;
use crate::recompiler::ui::operations::spec_srli_u32;
use crate::recompiler::ui::operations::spec_subi_u32;
use crate::recompiler::ui::operations::spec_subv_u32;
use crate::recompiler::ui::operations::spec_testv_u32;
use crate::recompiler::RcState;
use crate::recompiler::Recompiler;
use crate::EmuRegNameType;
use crate::JITValue;
use crate::Label;
use crate::PtrType;
use crate::StackOffset;
use crate::StackOffsetType;
use crate::X64Reg;

verus! {

/// The state after binding `a` and `b` together and appending the
/// instruction `op /r` with `b`'s register as the source (ModRM `reg`) and
/// `a`'s register as the operand that is written (ModRM `rm`).
pub open spec fn rr_step(s: RcState, op: u8, a: JITValue, b: JITValue) -> RcState {
    let s1 = bind_step(s, seq![a, b]);
    emit_step(s1, x86_rr(op, reg_in(s1, b), reg_in(s1, a)))
}

/// `addv_u32` is `add r/m32, r32` (opcode `0x01`): `dest += src`, written
/// to `dest`'s register.
pub proof fn law_addv_adds(s: RcState, dest: JITValue, src: JITValue)
    ensures
        spec_addv_u32(s, dest, src) == rr_step(s, 0x01, dest, src),
{
    let s1 = bind_step(s, seq![dest, src]);
    lemma_enc_rr_forms(reg_in(s1, src), reg_in(s1, dest));
}

/// `subv_u32` is `sub r/m32, r32` (opcode `0x29`): `dest -= src`, written
/// to `dest`'s register; not an addition.
pub proof fn law_subv_subtracts(s: RcState, dest: JITValue, src: JITValue)
    ensures
        spec_subv_u32(s, dest, src) == rr_step(s, 0x29, dest, src),
{
    let s1 = bind_step(s, seq![dest, src]);
    lemma_enc_alu_rr(0x29, reg_in(s1, src), reg_in(s1, dest));
}

/// `andv_u32` is `and r/m32, r32` (opcode `0x21`): `dest &= src`.
pub proof fn law_andv_ands(s: RcState, dest: JITValue, src: JITValue)
    ensures
        spec_andv_u32(s, dest, src) == rr_step(s, 0x21, dest, src),
{
    let s1 = bind_step(s, seq![dest, src]);
    lemma_enc_alu_rr(0x21, reg_in(s1, src), reg_in(s1, dest));
}

/// `orv_u32` is `or r/m32, r32` (opcode `0x09`): `dest |= src`.
pub proof fn law_orv_ors(s: RcState, dest: JITValue, src: JITValue)
    ensures
        spec_orv_u32(s, dest, src) == rr_step(s, 0x09, dest, src),
{
    let s1 = bind_step(s, seq![dest, src]);
    lemma_enc_alu_rr(0x09, reg_in(s1, src), reg_in(s1, dest));
}

/// `cmpv_u32` is `cmp r/m32, r32` (opcode `0x39`) with `value2` as `r/m`:
/// the flags of `value2 - value1`, and no register written.
pub proof fn law_cmpv_compares(s: RcState, value1: JITValue, value2: JITValue)
    ensures
        ({
            let s1 = bind_step(s, seq![value1, value2]);
            spec_cmpv_u32(s, value1, value2) == emit_step(
                s1,
                x86_rr(0x39, reg_in(s1, value1), reg_in(s1, value2)),
            )
        }),
{
    let s1 = bind_step(s, seq![value1, value2]);
    lemma_enc_rr_forms(reg_in(s1, value1), reg_in(s1, value2));
}

/// `testv_u32` is `test r/m32, r32` (opcode `0x85`): the flags of
/// `value1 & value2`.
pub proof fn law_testv_tests(s: RcState, value1: JITValue, value2: JITValue)
    ensures
        ({
            let s1 = bind_step(s, seq![value1, value2]);
            spec_testv_u32(s, value1, value2) == emit_step(
                s1,
                x86_rr(0x85, reg_in(s1, value1), reg_in(s1, value2)),
            )
        }),
{
    let s1 = bind_step(s, seq![value1, value2]);
    lemma_enc_alu_rr(0x85, reg_in(s1, value1), reg_in(s1, value2));
}

/// The state after binding `v` and appending `code` made for its register.
pub open spec fn unary_step(s: RcState, v: JITValue, code: spec_fn(X64Reg) -> Seq<u8>) -> RcState {
    let s1 = bind_step(s, seq![v]);
    emit_step(s1, code(reg_in(s1, v)))
}

/// The operations with an immediate are the group-one forms of the Intel
/// manual, told apart by the ModRM extension: `0` adds, `5` subtracts, `4`
/// ands and `1` ors the immediate into the value's register.
pub proof fn law_immediates(s: RcState, dest: JITValue, imm: i32, uimm: u32)
    ensures
        spec_addi_u32(s, dest, imm) == unary_step(s, dest, |r: X64Reg| x86_alu_imm(0, imm, r)),
        spec_subi_u32(s, dest, imm) == unary_step(s, dest, |r: X64Reg| x86_alu_imm(5, imm, r)),
        spec_andi_u32(s, dest, uimm) == unary_step(s, dest, |r: X64Reg| x86_alu_imm32(4, uimm, r)),
        spec_ori_u32(s, dest, uimm) == unary_step(s, dest, |r: X64Reg| x86_alu_imm32(1, uimm, r)),
{
    let s1 = bind_step(s, seq![dest]);
    lemma_enc_imm_forms(reg_in(s1, dest), imm, uimm);
}

/// The shifts are `0xc1` with extension `4` (shift left), `5` (logical
/// shift right) and `7` (arithmetic shift right); the bit test is
/// `0x0f 0xba /4`, which copies the bit into the carry flag.
pub proof fn law_shifts(s: RcState, value: JITValue, imm: u32)
    ensures
        spec_slli_u32(s, value, imm) == unary_step(s, value, |r: X64Reg| x86_shift(4, imm, r)),
        spec_srli_u32(s, value, imm) == unary_step(s, value, |r: X64Reg| x86_shift(5, imm, r)),
        spec_srai_u32(s, value, imm) == unary_step(s, value, |r: X64Reg| x86_shift(7, imm, r)),
        spec_bti_u32(s, value, imm) == unary_step(
            s,
            value,
            |r: X64Reg| rex(0, 0, hi(r)) + seq![0x0fu8, 0xbau8, modrm_rr(4, lo(r)), imm as u8],
        ),
{
    let s1 = bind_step(s, seq![value]);
    lemma_enc_r_forms(reg_in(s1, value), imm);
}

/// `divv_u32` ends with `idiv r/m32` (`0xf7 /7`), a signed division of
/// `%edx:%eax` by the divisor's register; `divuv_u32` ends with `div r/m32`
/// (`0xf7 /6`), the unsigned one. Both start with the same set-up.
pub proof fn law_divisions(
    s: RcState,
    dividend: JITValue,
    divisor: JITValue,
    quotient: JITValue,
    remainder: JITValue,
)
    ensures
        ({
            let s5 = spec_div_setup(s, dividend, divisor, quotient, remainder);
            &&& spec_divv_u32(s, dividend, divisor, quotient, remainder) == emit_step(
                s5,
                x86_r(0xf7, 7, reg_in(s5, divisor)),
            )
            &&& spec_divuv_u32(s, dividend, divisor, quotient, remainder) == emit_step(
                s5,
                x86_r(0xf7, 6, reg_in(s5, divisor)),
            )
        }),
{
    let s5 = spec_div_setup(s, dividend, divisor, quotient, remainder);
    lemma_enc_r_forms(reg_in(s5, divisor), 0);
}

/// `setv_u32` writes `src` into `dest`'s register: from `src`'s register
/// with `mov r/m32, r32` (`0x89`, `dest`'s register as `r/m`) when `src` is
/// bound, else from `src`'s home on the stack with `mov r32, r/m32`
/// (`0x8b`). `src`'s register is never written.
pub proof fn law_setv_copies(s: RcState, dest: JITValue, src: JITValue)
    ensures
        ({
            let s1 = bind_step(s, seq![dest]);
            let d = reg_in(s1, dest);
            spec_setv_u32(s, dest, src) == emit_step(
                s1,
                if is_bound(s1.bindings, src) {
                    x86_rr(0x89, reg_in(s1, src), d)
                } else {
                    x86_load(0, d, X64Reg::RSP, (s1.frame - src.spec_position().0) as i32)
                },
            )
        }),
{
    let s1 = bind_step(s, seq![dest]);
    let d = reg_in(s1, dest);
    lemma_enc_rr_forms(reg_in(s1, src), d);
    lemma_enc_mem_forms(d, X64Reg::RSP, (s1.frame - src.spec_position().0) as i32);
}

/// `seti_u32` writes the immediate into `dest`'s register: `xor r, r`
/// (`0x31`) for zero, else `mov r32, imm32` (`0xb8 + r`).
pub proof fn law_seti_sets(s: RcState, dest: JITValue, imm: u32)
    ensures
        spec_seti_u32(s, dest, imm) == unary_step(
            s,
            dest,
            |r: X64Reg|
                if imm == 0 {
                    x86_rr(0x31, r, r)
                } else {
                    rex(0, 0, hi(r)) + seq![(0xb8 + lo(r)) as u8] + le32(imm)
                },
        ),
{
    let s1 = bind_step(s, seq![dest]);
    let r = reg_in(s1, dest);
    lemma_enc_alu_rr(0x31, r, r);
    lemma_enc_movl_ir(imm, r);
}

/// Dereferences and indexing load through the value's own register into
/// that register: `mov r32, [r + 4 * idx]` (or `mov r64, [r]`); indexed
/// stores write `result`'s register to `[ptr + 4 * idx]`.
pub proof fn law_memory_accesses(s: RcState, value: JITValue, result: JITValue, idx: StackOffsetType)
    ensures
        spec_deref_u32(s, value) == unary_step(s, value, |r: X64Reg| x86_load(0, r, r, 0)),
        spec_deref_u64(s, value) == unary_step(s, value, |r: X64Reg| x86_load(1, r, r, 0)),
        spec_index_u32(s, value, idx) == unary_step(
            s,
            value,
            |r: X64Reg| x86_load(0, r, r, (idx * 4) as i32),
        ),
        ({
            let s1 = bind_step(s, seq![value, result]);
            spec_index_mut_u32(s, value, result, idx) == emit_step(
                s1,
                x86_store(0, reg_in(s1, result), reg_in(s1, value), (idx * 4) as i32),
            )
        }),
{
    let s1 = bind_step(s, seq![value]);
    let r = reg_in(s1, value);
    lemma_enc_mem_forms(r, r, 0);
    lemma_enc_mem_forms(r, r, (idx * 4) as i32);
    let s2 = bind_step(s, seq![value, result]);
    lemma_enc_mem_forms(reg_in(s2, result), reg_in(s2, value), (idx * 4) as i32);
}

/// `load_ptr` loads eight bytes into `dest`'s register from the stack, at
/// the `ptr_idx`-th word above the bottom of the emulator pointers.
pub proof fn law_load_ptr(rc: Recompiler, dest: JITValue, ptr_idx: int)
    ensures
        ({
            let s1 = bind_step(rc.state(), seq![dest]);
            &&& spec_load_ptr(rc, dest, ptr_idx) == emit_step(
                s1,
                x86_load(1, reg_in(s1, dest), X64Reg::RSP, ptr_offset(rc, ptr_idx) as i32),
            )
            &&& ptr_offset(rc, ptr_idx) == rc.state().frame - (rc.native_ptrs() + rc.emulator_ptrs())
                + 8 * ptr_idx
        }),
{
    let s1 = bind_step(rc.state(), seq![dest]);
    lemma_enc_mem_forms(reg_in(s1, dest), X64Reg::RSP, ptr_offset(rc, ptr_idx) as i32);
}

/// `push` of each of `regs`, in order.
pub open spec fn pushes(regs: Seq<X64Reg>) -> Seq<u8>
    decreases regs.len(),
{
    if regs.len() == 0 {
        Seq::empty()
    } else {
        pushes(regs.drop_last()) + x86_push(regs.last())
    }
}

/// `pop` of each of `regs`, in order.
pub open spec fn pops(regs: Seq<X64Reg>) -> Seq<u8>
    decreases regs.len(),
{
    if regs.len() == 0 {
        Seq::empty()
    } else {
        pops(regs.drop_last()) + x86_pop(regs.last())
    }
}

/// Those of `regs` that hold a value in `b`, in order.
pub open spec fn holding(regs: Seq<X64Reg>, b: Map<X64Reg, JITValue>) -> Seq<X64Reg> {
    keep(regs, |r: X64Reg| b.contains_key(r))
}

proof fn lemma_pops_prepend(x: X64Reg, t: Seq<X64Reg>)
    ensures
        pops(seq![x] + t) == x86_pop(x) + pops(t),
    decreases t.len(),
{
    if t.len() == 0 {
        assert(seq![x] + t =~= seq![x]);
        assert(seq![x].drop_last() =~= Seq::<X64Reg>::empty());
        assert(pops(Seq::<X64Reg>::empty()) == Seq::<u8>::empty());
        assert(seq![x].last() == x);
        assert(pops(seq![x]) =~= x86_pop(x));
    } else {
        lemma_pops_prepend(x, t.drop_last());
        assert((seq![x] + t).drop_last() =~= seq![x] + t.drop_last());
        assert((seq![x] + t).last() == t.last());
        assert(pops(seq![x] + t) =~= x86_pop(x) + pops(t));
    }
}

/// Around a call, the caller-saved registers that hold a value are pushed
/// in order and popped in the reverse order, so each gets back the value it
/// held: the pops are the pushes reversed.
pub proof fn law_saves_restore(regs: Seq<X64Reg>, b: Map<X64Reg, JITValue>)
    ensures
        push_bound(regs, b) == pushes(holding(regs, b)),
        pop_bound(regs, b) == pops(holding(regs, b).reverse()),
    decreases regs.len(),
{
    if regs.len() > 0 {
        let d = regs.drop_last();
        let x = regs.last();
        law_saves_restore(d, b);
        lemma_enc_r_forms(x, 0);
        let h = holding(d, b);
        if b.contains_key(x) {
            assert(holding(regs, b) == h.push(x));
            assert(h.push(x).drop_last() =~= h);
            assert(h.push(x).reverse() =~= seq![x] + h.reverse());
            lemma_pops_prepend(x, h.reverse());
        } else {
            assert(holding(regs, b) == h);
            assert(push_bound(regs, b) =~= push_bound(d, b));
            assert(pop_bound(regs, b) =~= pop_bound(d, b));
        }
    } else {
        assert(holding(regs, b) =~= Seq::<X64Reg>::empty());
        assert(Seq::<X64Reg>::empty().reverse() =~= Seq::<X64Reg>::empty());
    }
}

/// Every emulator register is read on entry from byte `4 * name` of the
/// emulator's register file (at `%rax`) and written back on exit to the same
/// byte: the entry copies input `k` from `4 * inputs[k]` to its home, and
/// the exit copies the register loaded for input `k`, which is named
/// `inputs[k]`, from its home back to `4 * inputs[k]`. When the exit's frame
/// is the entry's, both use the same home.
pub proof fn law_emu_regs_round_trip(inputs: Seq<EmuRegNameType>, base: int, frame: int, k: int)
    requires
        0 <= k < inputs.len(),
    ensures
        loaded_regs(inputs, base)[k].name.0 == inputs[k],
        copy_in(inputs, k + 1) == copy_in(inputs, k) + x86_load(
            0,
            X64Reg::RCX,
            X64Reg::RAX,
            (4 * inputs[k]) as i32,
        ) + x86_store(0, X64Reg::RCX, X64Reg::RSP, (4 * (inputs.len() - k - 1)) as i32),
        copy_out(loaded_regs(inputs, base), frame, k + 1) == copy_out(loaded_regs(inputs, base), frame, k)
            + x86_load(
            0,
            X64Reg::RCX,
            X64Reg::RSP,
            (frame - loaded_regs(inputs, base)[k].position.0) as i32,
        ) + x86_store(0, X64Reg::RCX, X64Reg::RAX, (4 * inputs[k]) as i32),
        0 <= base && base + 4 * inputs.len() <= i32::MAX && frame == base + 4 * inputs.len() ==> frame
            - loaded_regs(inputs, base)[k].position.0 == 4 * (inputs.len() - k - 1),
{
    lemma_enc_mem_forms(X64Reg::RCX, X64Reg::RAX, (4 * inputs[k]) as i32);
    lemma_enc_mem_forms(X64Reg::RCX, X64Reg::RSP, (4 * (inputs.len() - k - 1)) as i32);
    lemma_enc_mem_forms(
        X64Reg::RCX,
        X64Reg::RSP,
        (frame - loaded_regs(inputs, base)[k].position.0) as i32,
    );
    let regs = loaded_regs(inputs, base);
    assert(copy_out(regs, frame, k + 1) == copy_out(regs, frame, k) + crate::assembler::mov::enc_movl_mr_offset(
        X64Reg::RSP,
        X64Reg::RCX,
        (frame - regs[k].position.0) as i32,
    ) + crate::assembler::mov::enc_movl_rm_offset(X64Reg::RCX, X64Reg::RAX, (4 * regs[k].name.0) as i32));
}

proof fn lemma_pushes_to(regs: Seq<X64Reg>, n: int)
    requires
        0 <= n <= regs.len(),
    ensures
        pushes_to(regs, n) == pushes(regs.take(n)),
    decreases n,
{
    if n > 0 {
        lemma_pushes_to(regs, n - 1);
        lemma_enc_r_forms(regs[n - 1], 0);
        assert(regs.take(n).drop_last() =~= regs.take(n - 1));
        assert(regs.take(n).last() == regs[n - 1]);
    } else {
        assert(regs.take(0) =~= Seq::<X64Reg>::empty());
    }
}

proof fn lemma_pops_from(regs: Seq<X64Reg>, i: int)
    requires
        0 <= i <= regs.len(),
    ensures
        pops_from(regs, i) == pops(regs.skip(i).reverse()),
    decreases regs.len() - i,
{
    if i < regs.len() {
        lemma_pops_from(regs, i + 1);
        lemma_enc_r_forms(regs[i], 0);
        let r = regs.skip(i).reverse();
        assert(r.drop_last() =~= regs.skip(i + 1).reverse());
        assert(r.last() == regs[i]);
    } else {
        assert(regs.skip(i).reverse() =~= Seq::<X64Reg>::empty());
    }
}

/// On entry all seven registers that System V asks a callee to keep are
/// pushed in order, and on exit they are popped in the reverse order, so
/// each gets back the caller's value.
pub proof fn law_callee_saves_restore()
    ensures
        X64Reg::spec_callee_saved_regs().len() == 7,
        pushes_to(X64Reg::spec_callee_saved_regs(), 7) == pushes(X64Reg::spec_callee_saved_regs()),
        pops_from(X64Reg::spec_callee_saved_regs(), 0) == pops(
            X64Reg::spec_callee_saved_regs().reverse(),
        ),
{
    let regs = X64Reg::spec_callee_saved_regs();
    lemma_pushes_to(regs, 7);
    lemma_pops_from(regs, 0);
    assert(regs.take(7) =~= regs);
    assert(regs.skip(0) =~= regs);
}

/// A call moves the stack down by between 1 and 16 bytes, so that the
/// frame with the caller-saved registers pushed ends on a 16-byte boundary
/// at the call, and moves it back up by the same amount after it; the
/// registers that hold a value are pushed before and popped in reverse
/// order after.
pub proof fn law_call_aligns(s: RcState, call: Seq<u8>)
    ensures
        1 <= call_align(pushed_frame(s)) <= 16,
        (pushed_frame(s) + call_align(pushed_frame(s))) % 16 == 0,
        call_code(s, call) == pushes(holding(X64Reg::spec_caller_saved_regs(), s.bindings))
            + x86_addq_rsp((-call_align(pushed_frame(s))) as i32) + call + x86_addq_rsp(
            call_align(pushed_frame(s)) as i32,
        ) + pops(holding(X64Reg::spec_caller_saved_regs(), s.bindings).reverse()),
{
    let a = call_align(pushed_frame(s));
    law_saves_restore(X64Reg::spec_caller_saved_regs(), s.bindings);
    lemma_enc_addq_rsp((-a) as i32);
    lemma_enc_addq_rsp(a as i32);
}

/// Each jump tests the flag it is named for. The conditional ones are the
/// Intel `jcc` forms with condition `2` (below: carry set), `3` (not below:
/// carry clear), `4` (equal: zero set), `5` (not equal: zero clear), `8`
/// (sign set), `9` (sign clear) and `0xd` (not less: sign equal to
/// overflow); only `jump_if_carry` has the long form. `jump` is `jmp rel8`
/// (`0xeb`) and `call_label` is `call rel32` (`0xe8`).
pub proof fn law_jump_conditions(label: Label)
    ensures
        jc_opcode(label) == x86_jcc(2, label.spec_size() as int),
        jnc_opcode() == x86_jcc(3, 1),
        jz_opcode() == x86_jcc(4, 1),
        jnz_opcode() == x86_jcc(5, 1),
        js_opcode() == x86_jcc(8, 1),
        jns_opcode() == x86_jcc(9, 1),
        jnl_opcode() == x86_jcc(0xd, 1),
        jmp_opcode() == seq![0xebu8],
        call_opcode() == seq![0xe8u8],
{
    assert(jc_opcode(label) =~= x86_jcc(2, label.spec_size() as int));
    assert(jnc_opcode() =~= x86_jcc(3, 1));
    assert(jz_opcode() =~= x86_jcc(4, 1));
    assert(jnz_opcode() =~= x86_jcc(5, 1));
    assert(js_opcode() =~= x86_jcc(8, 1));
    assert(jns_opcode() =~= x86_jcc(9, 1));
    assert(jnl_opcode() =~= x86_jcc(0xd, 1));
}

/// `set_carry` is `stc` (`0xf9`) and `clear_carry` is `clc` (`0xf8`).
/// `set_zero` and `clear_signed` are `cmp %eax, %eax` (`0x39`): the flags of
/// `%eax - %eax`, which is zero, so the zero flag is set and the sign flag
/// clear.
pub proof fn law_flag_setters()
    ensures
        set_carry_code() == seq![0xf9u8],
        clear_carry_code() == seq![0xf8u8],
        self_compare_code() == x86_rr(0x39, X64Reg::RAX, X64Reg::RAX),
{
    lemma_enc_rr_forms(X64Reg::RAX, X64Reg::RAX);
}

/// After `set_arg`, the argument register `reg` holds `value`. A value that
/// was in another register trades places with what `reg` held, by
/// `xchg` (so neither is lost); a value that was in no register is loaded
/// into `reg` once what `reg` held is stored. After `zero_arg`, `reg` holds
/// no value, what it held is stored, and the code ends with `xor reg, reg`
/// (`0x31`), which leaves zero in it.
pub proof fn law_arguments(s: RcState, value: JITValue, reg: X64Reg)
    ensures
        spec_set_arg(s, value, reg).bindings.contains_key(reg),
        spec_set_arg(s, value, reg).bindings[reg] == value,
        is_bound(s.bindings, value) && reg_in(s, value) != reg ==> {
            &&& spec_set_arg(s, value, reg).code == s.code + x86_xchgq(reg_in(s, value), reg)
            &&& spec_set_arg(s, value, reg).bindings.contains_key(reg_in(s, value)) == s.bindings.contains_key(reg)
            &&& s.bindings.contains_key(reg) ==> spec_set_arg(s, value, reg).bindings[reg_in(s, value)]
                == s.bindings[reg]
        },
        is_bound(s.bindings, value) && reg_in(s, value) == reg ==> spec_set_arg(s, value, reg).code == s.code,
        !spec_zero_arg(s, reg).bindings.contains_key(reg),
        spec_zero_arg(s, reg).code == s.code + enc_transfers(spill(s.bindings, reg), StackOffset(s.frame as i32))
            + x86_rr(0x31, reg, reg),
{
    lemma_enc_alu_rr(XOR, reg, reg);
    if is_bound(s.bindings, value) {
        let r = reg_in(s, value);
        lemma_enc_xchgq(r, reg);
        assert(s.code + Seq::<u8>::empty() =~= s.code);
    }
}

/// Pushes of each of `imms`, in order.
pub open spec fn imm_pushes(imms: Seq<PtrType>) -> Seq<u8>
    decreases imms.len(),
{
    if imms.len() == 0 {
        Seq::empty()
    } else {
        imm_pushes(imms.drop_last()) + enc_pushq_i(imms.last())
    }
}

proof fn lemma_push_ptrs(ptrs: Seq<PtrType>, i: int)
    requires
        0 <= i <= ptrs.len(),
    ensures
        push_ptrs(ptrs, i) == imm_pushes(ptrs.skip(i).reverse()),
    decreases ptrs.len() - i,
{
    if i < ptrs.len() {
        lemma_push_ptrs(ptrs, i + 1);
        let r = ptrs.skip(i).reverse();
        assert(r.drop_last() =~= ptrs.skip(i + 1).reverse());
        assert(r.last() == ptrs[i]);
    } else {
        assert(ptrs.skip(i).reverse() =~= Seq::<PtrType>::empty());
    }
}

/// On entry the emulator pointers are pushed from the last to the first, so
/// that the first, the address of the emulator's register file, ends on top
/// of the stack; loading the emulator registers then starts by reading it
/// from there into `%rax` (`mov rax, [rsp]`), makes four bytes of room for
/// each register, and copies them in.
pub proof fn law_entry_layout(inputs: Seq<EmuRegNameType>, ptrs: Seq<PtrType>)
    ensures
        push_ptrs(ptrs, 0) == imm_pushes(ptrs.reverse()),
        load_code(inputs) == x86_load(1, X64Reg::RAX, X64Reg::RSP, 0) + x86_addq_rsp(
            (-4 * inputs.len()) as i32,
        ) + copy_in(inputs, inputs.len() as int),
{
    lemma_push_ptrs(ptrs, 0);
    assert(ptrs.skip(0) =~= ptrs);
    lemma_enc_mem_forms(X64Reg::RAX, X64Reg::RSP, 0);
    lemma_enc_addq_rsp((-4 * inputs.len()) as i32);
}

} // verus!
