//! Entry into and exit from the compiled function: saving the registers the
//! System V ABI asks a callee to keep, the emulator pointers, and moving the
//! emulator registers between the emulator's register file and the stack.

use vstd::prelude::*;
use crate::allocator::emu_size_sum;
use crate::allocator::registers::without_emu;
use crate::allocator::Allocator;
use crate::assembler::add::enc_addq_ir;
use crate::assembler::call::enc_retq;
use crate::assembler::mov::enc_movl_mr_offset;
use crate::assembler::mov::enc_movl_rm_offset;
use crate::assembler::mov::enc_movq_mr;
use crate::assembler::mov::enc_movq_mr_offset;
use crate::assembler::stack::enc_popq_r;
use crate::assembler::stack::enc_pushq_i;
use crate::assembler::stack::enc_pushq_r;
use crate::assembler::ui::enc_transfers;
use crate::assembler::ui::patched;
use crate::assembler::ui::transfer_ok;
use crate::assembler::Assembler;
use crate::recompiler::valid_value;
use crate::recompiler::Recompiler;
use crate::Direction;
use crate::EmuReg;
use crate::EmuRegName;
use crate::EmuRegNameType;
use crate::GenericValue;
use crate::PtrType;
use crate::StackOffset;
use crate::Transfer;
use crate::X64Reg;

verus! {

/// Pushes of the first `i` of `regs`, in order.
pub open spec fn pushes_to(regs: Seq<X64Reg>, i: int) -> Seq<u8>
    decreases i,
{
    if i <= 0 {
        Seq::empty()
    } else {
        pushes_to(regs, i - 1) + enc_pushq_r(regs[i - 1])
    }
}

/// Pops of `regs` from the last down to the one at index `i`.
pub open spec fn pops_from(regs: Seq<X64Reg>, i: int) -> Seq<u8>
    decreases regs.len() - i,
{
    if i < 0 || i >= regs.len() {
        Seq::empty()
    } else {
        pops_from(regs, i + 1) + enc_popq_r(regs[i])
    }
}

/// Pushes of `ptrs` from the last down to the one at index `i`, so that the
/// one at index `i` ends on top of the stack.
pub open spec fn push_ptrs(ptrs: Seq<PtrType>, i: int) -> Seq<u8>
    decreases ptrs.len() - i,
{
    if i < 0 || i >= ptrs.len() {
        Seq::empty()
    } else {
        push_ptrs(ptrs, i + 1) + enc_pushq_i(ptrs[i])
    }
}

/// The emulator registers named by `inputs`, loaded into a frame of `base`
/// bytes: the one at index `k` is four bytes wide, at position
/// `base + 4 * (k + 1)`.
pub open spec fn loaded_regs(inputs: Seq<EmuRegNameType>, base: int) -> Seq<EmuReg> {
    Seq::new(
        inputs.len(),
        |k: int|
            EmuReg {
                name: EmuRegName(inputs[k]),
                position: StackOffset((base + 4 * (k + 1)) as i32),
                size: StackOffset(4),
            },
    )
}

/// Copies of the first `k` of `inputs` from the emulator's register file,
/// whose address is in `%rax`, through `%rcx`, to their homes: the one at
/// index `j` lives `4 * (inputs.len() - j - 1)` bytes above `%rsp`.
pub open spec fn copy_in(inputs: Seq<EmuRegNameType>, k: int) -> Seq<u8>
    decreases k,
{
    if k <= 0 {
        Seq::empty()
    } else {
        copy_in(inputs, k - 1) + enc_movl_mr_offset(X64Reg::RAX, X64Reg::RCX, (4 * inputs[k - 1]) as i32)
            + enc_movl_rm_offset(X64Reg::RCX, X64Reg::RSP, (4 * (inputs.len() - k)) as i32)
    }
}

/// The code that loads the emulator registers: the first emulator pointer,
/// the address of the register file, from the top of the stack into `%rax`;
/// room for the registers below it; and the copies.
pub open spec fn load_code(inputs: Seq<EmuRegNameType>) -> Seq<u8> {
    enc_movq_mr(X64Reg::RSP, X64Reg::RAX) + enc_addq_ir((-4 * inputs.len()) as i32, X64Reg::RSP)
        + copy_in(inputs, inputs.len() as int)
}

/// The code on entry: the callee-saved registers pushed, then the emulator
/// pointers, then the emulator registers loaded.
pub open spec fn prologue_code(inputs: Seq<EmuRegNameType>, pointers: Seq<PtrType>) -> Seq<u8> {
    pushes_to(X64Reg::spec_callee_saved_regs(), 7) + push_ptrs(pointers, 0) + load_code(inputs)
}

/// Copies of the first `k` of `regs` from their homes in a frame of `frame`
/// bytes, through `%rcx`, back to the emulator's register file at `%rax`.
pub open spec fn copy_out(regs: Seq<EmuReg>, frame: int, k: int) -> Seq<u8>
    decreases k,
{
    if k <= 0 {
        Seq::empty()
    } else {
        copy_out(regs, frame, k - 1) + enc_movl_mr_offset(
            X64Reg::RSP,
            X64Reg::RCX,
            (frame - regs[k - 1].position.0) as i32,
        ) + enc_movl_rm_offset(X64Reg::RCX, X64Reg::RAX, (4 * regs[k - 1].name.0) as i32)
    }
}

/// Whether `moves` store each emulator register bound in `b` to its home,
/// once each, and nothing else.
pub open spec fn spills_emu_regs(b: Map<X64Reg, crate::JITValue>, moves: Seq<Transfer>) -> bool {
    &&& moves.no_duplicates()
    &&& forall|i: int|
        0 <= i < moves.len() ==> {
            let m = #[trigger] moves[i];
            &&& m.dir == Direction::FromReg
            &&& b.contains_key(m.reg)
            &&& b[m.reg] is EmuReg
            &&& m.other == GenericValue::JITValue(b[m.reg])
        }
    &&& forall|r: X64Reg|
        #[trigger] b.contains_key(r) && b[r] is EmuReg ==> moves.contains(
            Transfer { reg: r, other: GenericValue::JITValue(b[r]), dir: Direction::FromReg },
        )
}

/// The code that stores the emulator registers of `rc` back: the address
/// of the register file from the first emulator pointer into `%rax`, the
/// copies, and the registers' room dropped.
pub open spec fn save_code(rc: Recompiler) -> Seq<u8> {
    let f = rc.state().frame;
    enc_movq_mr_offset(X64Reg::RSP, X64Reg::RAX, (f - rc.native_ptrs() - rc.emulator_ptrs()) as i32)
        + copy_out(rc.emu_regs(), f, rc.emu_regs().len() as int) + enc_addq_ir(
        emu_size_sum(rc.emu_regs()) as i32,
        X64Reg::RSP,
    )
}

/// The code on exit from `rc`: the emulator registers stored back, the
/// emulator pointers dropped, the callee-saved registers popped, and the
/// return.
pub open spec fn epilogue_code(rc: Recompiler) -> Seq<u8> {
    save_code(rc) + enc_addq_ir(rc.emulator_ptrs() as i32, X64Reg::RSP) + pops_from(
        X64Reg::spec_callee_saved_regs(),
        0,
    ) + enc_retq()
}

proof fn lemma_emu_size_sum_push(regs: Seq<EmuReg>, r: EmuReg)
    ensures
        emu_size_sum(regs.push(r)) == emu_size_sum(regs) + r.size.0,
{
    assert(regs.push(r).drop_last() == regs);
}

impl Recompiler {
    /// The labels of `self` are those of `old`.
    pub open spec fn same_labels(self, old: Recompiler) -> bool {
        &&& self.label_count() == old.label_count()
        &&& self.uses() == old.uses()
        &&& self.defs() == old.defs()
    }

    /// Pushes the registers that a callee must keep; they count as native
    /// words of the frame.
    fn sysv_callee_prologue(&mut self)
        requires
            old(self).wf(),
            old(self).variables() >= 0,
            old(self).state().frame + 56 <= i32::MAX,
        ensures
            final(self).wf(),
            final(self).same_labels(*old(self)),
            final(self).state().bindings == old(self).state().bindings,
            final(self).state().code == old(self).state().code + pushes_to(
                X64Reg::spec_callee_saved_regs(),
                7,
            ),
            final(self).state().frame == old(self).state().frame + 56,
            final(self).native_ptrs() == old(self).native_ptrs() + 56,
            final(self).variables() == old(self).variables(),
            final(self).emu_regs() == old(self).emu_regs(),
            final(self).emulator_ptrs() == old(self).emulator_ptrs(),
    {
        let regs = X64Reg::callee_saved_regs();
        let mut offset = StackOffset(0);
        let mut i: usize = 0;
        while i < regs.len()
            invariant
                0 <= i <= regs.len(),
                regs@ == X64Reg::spec_callee_saved_regs(),
                self.allocator == old(self).allocator,
                self.assembler.wf(),
                self.assembler.label_count() == old(self).assembler.label_count(),
                self.assembler.uses() == old(self).assembler.uses(),
                self.assembler.defs() == old(self).assembler.defs(),
                self.assembler.bytes() == old(self).assembler.bytes() + pushes_to(regs@, i as int),
                offset.0 == 8 * i,
            decreases regs.len() - i,
        {
            let o = self.assembler.emit_pushq_r(regs[i]);
            offset = offset + o;
            i = i + 1;
        }
        proof {
            self.lemma_wf();
        }
        self.allocator.native_ptrs_mut().add_assign(offset);
    }

    /// Pops the registers that a callee must keep, in reverse order.
    fn sysv_callee_epilogue(&mut self)
        requires
            old(self).wf(),
            old(self).variables() >= 0,
            old(self).native_ptrs() >= 56,
        ensures
            final(self).wf(),
            final(self).same_labels(*old(self)),
            final(self).state().bindings == old(self).state().bindings,
            final(self).state().code == old(self).state().code + pops_from(
                X64Reg::spec_callee_saved_regs(),
                0,
            ),
            final(self).state().frame == old(self).state().frame - 56,
            final(self).native_ptrs() == old(self).native_ptrs() - 56,
            final(self).variables() == old(self).variables(),
            final(self).emu_regs() == old(self).emu_regs(),
            final(self).emulator_ptrs() == old(self).emulator_ptrs(),
    {
        let regs = X64Reg::callee_saved_regs();
        let mut offset = StackOffset(0);
        let mut i: usize = regs.len();
        while i > 0
            invariant
                0 <= i <= regs.len(),
                regs@ == X64Reg::spec_callee_saved_regs(),
                self.allocator == old(self).allocator,
                self.assembler.wf(),
                self.assembler.label_count() == old(self).assembler.label_count(),
                self.assembler.uses() == old(self).assembler.uses(),
                self.assembler.defs() == old(self).assembler.defs(),
                self.assembler.bytes() == old(self).assembler.bytes() + pops_from(regs@, i as int),
                offset.0 == -8 * (regs.len() - i),
            decreases i,
        {
            let o = self.assembler.emit_popq_r(regs[i - 1]);
            offset = offset + o;
            i = i - 1;
        }
        proof {
            self.lemma_wf();
        }
        self.allocator.native_ptrs_mut().add_assign(offset);
    }

    /// Pushes the emulator pointers, the last first, so that the first ends
    /// on top of the stack.
    fn load_pointers(&mut self, pointers: &[PtrType])
        requires
            old(self).wf(),
            old(self).variables() >= 0,
            old(self).state().frame + 8 * pointers.len() <= i32::MAX,
        ensures
            final(self).wf(),
            final(self).same_labels(*old(self)),
            final(self).state().bindings == old(self).state().bindings,
            final(self).state().code == old(self).state().code + push_ptrs(pointers@, 0),
            final(self).state().frame == old(self).state().frame + 8 * pointers.len(),
            final(self).emulator_ptrs() == old(self).emulator_ptrs() + 8 * pointers.len(),
            final(self).native_ptrs() == old(self).native_ptrs(),
            final(self).variables() == old(self).variables(),
            final(self).emu_regs() == old(self).emu_regs(),
    {
        proof {
            self.lemma_wf();
        }
        let mut offset = StackOffset(0);
        let mut i: usize = pointers.len();
        while i > 0
            invariant
                0 <= i <= pointers.len(),
                old(self).state().frame + 8 * pointers.len() <= i32::MAX,
                0 <= old(self).state().frame,
                self.allocator == old(self).allocator,
                self.assembler.wf(),
                self.assembler.label_count() == old(self).assembler.label_count(),
                self.assembler.uses() == old(self).assembler.uses(),
                self.assembler.defs() == old(self).assembler.defs(),
                self.assembler.bytes() == old(self).assembler.bytes() + push_ptrs(pointers@, i as int),
                offset.0 == 8 * (pointers.len() - i),
            decreases i,
        {
            let o = self.assembler.emit_pushq_i(pointers[i - 1]);
            offset = offset + o;
            i = i - 1;
        }
        self.allocator.emulator_ptrs_mut().add_assign(offset);
    }

    /// Drops the emulator pointers from the stack.
    fn free_pointers(&mut self)
        requires
            old(self).wf(),
            old(self).variables() >= 0,
        ensures
            final(self).wf(),
            final(self).same_labels(*old(self)),
            final(self).state().bindings == old(self).state().bindings,
            final(self).state().code == old(self).state().code + enc_addq_ir(
                old(self).emulator_ptrs() as i32,
                X64Reg::RSP,
            ),
            final(self).state().frame == old(self).state().frame - old(self).emulator_ptrs(),
            final(self).emulator_ptrs() == 0,
            final(self).native_ptrs() == old(self).native_ptrs(),
            final(self).variables() == old(self).variables(),
            final(self).emu_regs() == old(self).emu_regs(),
    {
        proof {
            self.lemma_wf();
        }
        let ptrs = self.allocator.emulator_ptrs();
        let offset = self.assembler.emit_addq_ir(ptrs.0, X64Reg::RSP);
        self.allocator.emulator_ptrs_mut().add_assign(offset);
    }
    /// Loads the emulator registers named by `inputs` from the emulator's
    /// register file, whose address is the first emulator pointer, into
    /// room made for them below the frame.
    fn load_emu_regs(&mut self, inputs: &[EmuRegNameType])
        requires
            old(self).wf(),
            old(self).variables() >= 0,
            old(self).state().frame + 4 * inputs.len() <= i32::MAX,
            forall|k: int| 0 <= k < inputs.len() ==> #[trigger] inputs@[k] * 4 <= i32::MAX,
        ensures
            final(self).wf(),
            final(self).same_labels(*old(self)),
            final(self).state().bindings == old(self).state().bindings,
            final(self).state().code == old(self).state().code + load_code(inputs@),
            final(self).state().frame == old(self).state().frame + 4 * inputs.len(),
            final(self).emu_regs() == old(self).emu_regs() + loaded_regs(
                inputs@,
                old(self).state().frame,
            ),
            final(self).emulator_ptrs() == old(self).emulator_ptrs(),
            final(self).native_ptrs() == old(self).native_ptrs(),
            final(self).variables() == old(self).variables(),
    {
        self.assembler.emit_movq_mr(X64Reg::RSP, X64Reg::RAX);
        proof {
            self.lemma_wf();
        }
        let offset = self.allocator.full_stack();
        let n: i32 = inputs.len() as i32;
        self.assembler.emit_addq_ir(-n * 4, X64Reg::RSP);
        let ghost code1 = self.assembler.bytes();
        let ghost loaded = loaded_regs(inputs@, offset.0 as int);
        let ghost e0 = self.allocator.spec_emulator_regs();
        let mut regs: Vec<EmuReg> = Vec::new();
        let mut k: usize = 0;
        while k < inputs.len()
            invariant
                0 <= k <= inputs.len(),
                n == inputs.len(),
                0 <= offset.0,
                offset.0 + 4 * inputs.len() <= i32::MAX,
                offset.0 == old(self).state().frame,
                forall|j: int| 0 <= j < inputs.len() ==> #[trigger] inputs@[j] * 4 <= i32::MAX,
                loaded == loaded_regs(inputs@, offset.0 as int),
                regs@ == loaded.take(k as int),
                self.allocator.spec_emulator_regs() == e0 + regs@,
                e0 == old(self).emu_regs(),
                self.wf(),
                self.state().frame == offset.0 + 4 * k,
                self.state().bindings == old(self).state().bindings,
                self.assembler.bytes() == code1,
                self.same_labels(*old(self)),
                self.emulator_ptrs() == old(self).emulator_ptrs(),
                self.native_ptrs() == old(self).native_ptrs(),
                self.variables() == old(self).variables(),
                old(self).variables() >= 0,
            decreases inputs.len() - k,
        {
            let reg = EmuReg {
                name: EmuRegName(inputs[k]),
                position: offset + StackOffset(4 * (k as i32 + 1)),
                size: StackOffset(4),
            };
            proof {
                lemma_emu_size_sum_push(self.allocator.spec_emulator_regs(), reg);
                assert(loaded.take(k + 1) == loaded.take(k as int).push(reg));
            }
            self.allocator.emulator_regs_mut().push(reg);
            regs.push(reg);
            proof {
                assert(self.allocator.spec_emulator_regs() =~= e0 + regs@);
                let er = self.allocator.spec_emulator_regs();
                assert forall|i: int| 0 <= i < er.len() implies (#[trigger] er[i]).size.0 == 4
                    && er[i].position.0 >= 0 && er[i].name.0 * 4 <= i32::MAX by {
                    if i >= e0.len() {
                        assert(er[i] == regs@[i - e0.len()]);
                    } else {
                        assert(er[i] == old(self).emu_regs()[i]);
                    }
                }
            }
            k = k + 1;
        }
        proof {
            assert(regs@ == loaded);
            self.lemma_wf();
        }
        let ghost rc1 = *self;
        let mut k: usize = 0;
        while k < inputs.len()
            invariant
                0 <= k <= inputs.len(),
                rc1.wf(),
                rc1.state().frame == old(self).state().frame + 4 * inputs.len(),
                rc1.state().bindings == old(self).state().bindings,
                rc1.emu_regs() == old(self).emu_regs() + regs@,
                rc1.emulator_ptrs() == old(self).emulator_ptrs(),
                rc1.native_ptrs() == old(self).native_ptrs(),
                rc1.variables() == old(self).variables(),
                self.allocator == rc1.allocator,
                0 <= offset.0,
                offset.0 + 4 * inputs.len() <= i32::MAX,
                forall|j: int| 0 <= j < inputs.len() ==> #[trigger] inputs@[j] * 4 <= i32::MAX,
                regs@ == loaded_regs(inputs@, offset.0 as int),
                self.allocator.frame_fits(),
                self.allocator.spec_full_stack() == offset.0 + 4 * inputs.len(),
                self.assembler.wf(),
                self.assembler.bytes() == code1 + copy_in(inputs@, k as int),
                self.assembler.label_count() == old(self).assembler.label_count(),
                self.assembler.uses() == old(self).assembler.uses(),
                self.assembler.defs() == old(self).assembler.defs(),
            decreases inputs.len() - k,
        {
            let pos = self.allocator.reg_position(&regs[k]);
            let src = StackOffset(4 * (inputs[k] as i32));
            self.assembler.emit_movl_mr_offset(X64Reg::RAX, X64Reg::RCX, src);
            self.assembler.emit_movl_rm_offset(X64Reg::RCX, X64Reg::RSP, pos);
            proof {
                assert(self.assembler.bytes() =~= code1 + copy_in(inputs@, k + 1));
            }
            k = k + 1;
        }
        proof {
            assert(self.assembler.bytes() =~= old(self).assembler.bytes() + load_code(inputs@));
        }
    }

    /// Stores the emulator registers back to the emulator's register file,
    /// whose address is the first emulator pointer, and drops their room.
    fn save_emu_regs(&mut self)
        requires
            old(self).wf(),
            old(self).variables() >= 0,
        ensures
            final(self).wf(),
            final(self).same_labels(*old(self)),
            final(self).state().bindings == old(self).state().bindings,
            final(self).state().code == old(self).state().code + save_code(*old(self)),
            final(self).state().frame == old(self).state().frame - emu_size_sum(old(self).emu_regs()),
            final(self).emu_regs() == Seq::<EmuReg>::empty(),
            final(self).emulator_ptrs() == old(self).emulator_ptrs(),
            final(self).native_ptrs() == old(self).native_ptrs(),
            final(self).variables() == old(self).variables(),
    {
        proof {
            self.lemma_wf();
        }
        let p = self.allocator.ptr_position(0);
        self.assembler.emit_movq_mr_offset(X64Reg::RSP, X64Reg::RAX, p);
        let ghost code1 = self.assembler.bytes();
        let ghost frame = self.allocator.spec_full_stack();
        let ghost er = self.allocator.spec_emulator_regs();
        let n = self.allocator.emulator_regs().len();
        let mut size = StackOffset(0);
        let mut k: usize = 0;
        while k < n
            invariant
                0 <= k <= n,
                n == er.len(),
                er == self.allocator.spec_emulator_regs(),
                frame == self.allocator.spec_full_stack(),
                self.allocator == old(self).allocator,
                self.allocator.frame_fits(),
                0 <= frame <= i32::MAX,
                forall|i: int|
                    0 <= i < er.len() ==> (#[trigger] er[i]).size.0 == 4 && er[i].position.0 >= 0
                        && er[i].name.0 * 4 <= i32::MAX,
                size.0 == emu_size_sum(er.take(k as int)),
                self.assembler.wf(),
                self.assembler.bytes() == code1 + copy_out(er, frame, k as int),
                self.assembler.label_count() == old(self).assembler.label_count(),
                self.assembler.uses() == old(self).assembler.uses(),
                self.assembler.defs() == old(self).assembler.defs(),
            decreases n - k,
        {
            let r = self.allocator.emulator_regs()[k];
            let pos = self.allocator.reg_position(&r);
            let dest = StackOffset(4 * (r.name.0 as i32));
            self.assembler.emit_movl_mr_offset(X64Reg::RSP, X64Reg::RCX, pos);
            self.assembler.emit_movl_rm_offset(X64Reg::RCX, X64Reg::RAX, dest);
            proof {
                assert(er.take(k + 1).drop_last() == er.take(k as int));
                assert(i32::MIN <= emu_size_sum(er.take(k + 1)) <= i32::MAX);
                assert(self.assembler.bytes() =~= code1 + copy_out(er, frame, k + 1));
            }
            size = size + r.size;
            k = k + 1;
        }
        proof {
            assert(er.take(n as int) == er);
        }
        self.assembler.emit_addq_ir(size.0, X64Reg::RSP);
        self.allocator.emulator_regs_mut().clear();
        proof {
            assert(self.assembler.bytes() =~= old(self).assembler.bytes() + save_code(*old(self)));
        }
    }

    /// Drops the local variables from the stack.
    fn free_variables(&mut self)
        requires
            old(self).wf(),
        ensures
            final(self).grew(
                *old(self),
                -old(self).variables(),
                enc_addq_ir(old(self).variables() as i32, X64Reg::RSP),
            ),
    {
        proof {
            self.lemma_wf();
        }
        let stack = self.allocator.stack();
        let offset = self.assembler.emit_addq_ir(stack.0, X64Reg::RSP);
        self.grow_stack(offset);
    }

    /// Readies the recompiler for the exit: the emulator registers held in
    /// registers are stored to their homes, in no particular order, and the
    /// local variables are dropped.
    pub fn prepare_for_exit(&mut self)
        requires
            old(self).wf(),
        ensures
            final(self).wf(),
            final(self).same_labels(*old(self)),
            final(self).state().bindings == without_emu(old(self).state().bindings),
            exists|moves: Seq<Transfer>|
                #[trigger] spills_emu_regs(old(self).state().bindings, moves) && final(self).state().code
                    == old(self).state().code + enc_transfers(
                    moves,
                    StackOffset(old(self).state().frame as i32),
                ) + enc_addq_ir(old(self).variables() as i32, X64Reg::RSP),
            final(self).state().frame == old(self).state().frame - old(self).variables(),
            final(self).variables() == 0,
            final(self).emu_regs() == old(self).emu_regs(),
            final(self).emulator_ptrs() == old(self).emulator_ptrs(),
            final(self).native_ptrs() == old(self).native_ptrs(),
    {
        let ghost b = self.allocator.bindings();
        proof {
            self.lemma_wf();
        }
        let transfers = self.allocator.unbind_emu_regs();
        let stack = self.allocator.full_stack();
        proof {
            assert forall|i: int| 0 <= i < transfers.0.len() implies transfer_ok(
                #[trigger] transfers.0@[i],
                stack,
            ) by {
                let m = transfers.0@[i];
                assert(valid_value(b[m.reg]));
            }
        }
        self.assembler.emit_transfers(transfers.0, stack);
        proof {
            let nb = self.allocator.bindings();
            assert forall|r: X64Reg| #[trigger] nb.contains_key(r) implies r != X64Reg::RSP && valid_value(
                nb[r],
            ) by {
                assert(b.contains_key(r));
            }
            assert(spills_emu_regs(b, transfers.0@));
        }
        self.free_variables();
        proof {
            assert(self.state().code == old(self).state().code + enc_transfers(
                transfers.0@,
                StackOffset(old(self).state().frame as i32),
            ) + enc_addq_ir(old(self).variables() as i32, X64Reg::RSP));
        }
    }

    /// Stores the emulator registers back, drops the emulator pointers, pops
    /// the callee-saved registers and returns; the frame that is left is the
    /// local variables, and nothing when they were dropped.
    fn jit_epilogue(&mut self)
        requires
            old(self).wf(),
            old(self).variables() >= 0,
            old(self).native_ptrs() >= 64,
        ensures
            final(self).wf(),
            final(self).same_labels(*old(self)),
            final(self).state().bindings == old(self).state().bindings,
            final(self).state().code == old(self).state().code + epilogue_code(*old(self)),
            final(self).state().frame == old(self).variables() + old(self).native_ptrs() - 64,
            final(self).emu_regs() == Seq::<EmuReg>::empty(),
            final(self).emulator_ptrs() == 0,
            final(self).native_ptrs() == old(self).native_ptrs() - 64,
            final(self).variables() == old(self).variables(),
    {
        self.save_emu_regs();
        self.free_pointers();
        self.sysv_callee_epilogue();
        proof {
            self.lemma_wf();
        }
        let offset = self.assembler.emit_retq();
        self.allocator.native_ptrs_mut().add_assign(offset);
        proof {
            assert(self.assembler.bytes() =~= old(self).assembler.bytes() + epilogue_code(*old(self)));
        }
    }

    /// A recompiler for a function that loads the emulator registers named
    /// by `inputs` and can reach the emulator through `pointers`, the first
    /// of which is the address of the emulator's register file. Neither may
    /// name anything twice.
    pub fn new(inputs: &[EmuRegNameType], pointers: &[PtrType]) -> (r: Self)
        requires
            inputs@.no_duplicates(),
            pointers@.no_duplicates(),
            forall|k: int| 0 <= k < inputs.len() ==> #[trigger] inputs@[k] * 4 <= i32::MAX,
            64 + 8 * pointers.len() + 4 * inputs.len() <= i32::MAX,
        ensures
            r.wf(),
            r.state().bindings.dom() == Set::<X64Reg>::empty(),
            r.state().code == prologue_code(inputs@, pointers@),
            r.state().frame == 64 + 8 * pointers.len() + 4 * inputs.len(),
            r.variables() == 0,
            r.emu_regs() == loaded_regs(inputs@, 64 + 8 * pointers.len()),
            r.emulator_ptrs() == 8 * pointers.len(),
            r.native_ptrs() == 64,
            r.label_count() == 0,
            r.uses().len() == 0,
            r.defs().dom() == Set::<crate::Label>::empty(),
    {
        let allocator = Allocator::new();
        let assembler = Assembler::new();
        let mut recompiler = Recompiler { allocator, assembler };
        recompiler.jit_prologue(inputs, pointers);
        proof {
            assert(recompiler.emu_regs() =~= loaded_regs(inputs@, 64 + 8 * pointers.len()));
        }
        recompiler
    }

    /// The entry code: the callee-saved registers pushed, then the emulator
    /// pointers, then the emulator registers loaded.
    fn jit_prologue(&mut self, inputs: &[EmuRegNameType], pointers: &[PtrType])
        requires
            old(self).wf(),
            old(self).variables() >= 0,
            forall|k: int| 0 <= k < inputs.len() ==> #[trigger] inputs@[k] * 4 <= i32::MAX,
            old(self).state().frame + 56 + 8 * pointers.len() + 4 * inputs.len() <= i32::MAX,
        ensures
            final(self).wf(),
            final(self).same_labels(*old(self)),
            final(self).state().bindings == old(self).state().bindings,
            final(self).state().code == old(self).state().code + prologue_code(inputs@, pointers@),
            final(self).state().frame == old(self).state().frame + 56 + 8 * pointers.len() + 4
                * inputs.len(),
            final(self).emu_regs() == old(self).emu_regs() + loaded_regs(
                inputs@,
                old(self).state().frame + 56 + 8 * pointers.len(),
            ),
            final(self).emulator_ptrs() == old(self).emulator_ptrs() + 8 * pointers.len(),
            final(self).native_ptrs() == old(self).native_ptrs() + 56,
            final(self).variables() == old(self).variables(),
    {
        self.sysv_callee_prologue();
        self.load_pointers(pointers);
        self.load_emu_regs(inputs);
        proof {
            assert(self.state().code =~= old(self).state().code + prologue_code(inputs@, pointers@));
        }
    }

    /// Whether `compile` can finish the function: the local variables are
    /// dropped, the words pushed on entry are all in the frame, and every
    /// used label is defined.
    pub fn can_compile(&self) -> (b: bool)
        requires
            self.wf(),
        ensures
            b == (self.variables() == 0 && self.native_ptrs() == 64 && forall|i: int|
                0 <= i < self.uses().len() ==> self.defs().contains_key(
                    (#[trigger] self.uses()[i]).1,
                )),
    {
        let labels = self.assembler.all_labels_defined();
        assert(self.uses() == self.assembler.uses() && self.defs() == self.assembler.defs());
        self.allocator.stack().0 == 0 && self.allocator.native_ptrs().0 == 64 && labels
    }

    /// The finished function's code: the exit is emitted, and every label's
    /// placeholder is replaced by its displacement. Every used label must be
    /// defined, and the local variables dropped, so that the frame is empty
    /// when the function returns.
    pub fn compile(self) -> (code: Vec<u8>)
        requires
            self.wf(),
            self.variables() == 0,
            self.native_ptrs() == 64,
            forall|i: int| 0 <= i < self.uses().len() ==> self.defs().contains_key(
                (#[trigger] self.uses()[i]).1,
            ),
        ensures
            patched(
                code@,
                self.state().code + epilogue_code(self),
                self.uses(),
                self.defs(),
                self.uses().len() as int,
            ),
    {
        let mut recompiler = self;
        recompiler.jit_epilogue();
        recompiler.assembler.resolve_label_addresses();
        recompiler.assembler.into_code()
    }
}

} // verus!
