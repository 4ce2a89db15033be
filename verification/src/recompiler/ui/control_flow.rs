//! Labels, jumps, calls and returns.

use vstd::prelude::*;
use crate::assembler::add::enc_addq_ir;
use crate::assembler::call::enc_callq_m_offset;
use crate::assembler::call::enc_callq_r;
use crate::assembler::call::enc_retq;
use crate::assembler::label_size_ok;
use crate::assembler::placeholder;
use crate::assembler::CALL;
use crate::assembler::JC;
use crate::assembler::JC_LONG;
use crate::assembler::JE;
use crate::assembler::JMP;
use crate::assembler::JNC;
use crate::assembler::JNE;
use crate::assembler::JNL;
use crate::assembler::JNS;
use crate::assembler::JS;
use crate::recompiler::bind_step;
use crate::recompiler::count_bound;
use crate::recompiler::emit_step;
use crate::recompiler::lemma_count_bound;
use crate::recompiler::pop_bound;
use crate::recompiler::push_bound;
use crate::recompiler::reg_in;
use crate::recompiler::valid_value;
use crate::recompiler::RcState;
use crate::recompiler::Recompiler;
use crate::JITValue;
use crate::Label;
use crate::StackOffset;
use crate::X64Reg;

verus! {

/// The opcode bytes of `jump`.
pub open spec fn jmp_opcode() -> Seq<u8> {
    seq![JMP]
}

/// The opcode bytes of `jump_if_carry` to `label`: the short form, or the
/// two-byte long form for a label with a four-byte displacement.
pub open spec fn jc_opcode(label: Label) -> Seq<u8> {
    if label.spec_size() == 1 {
        seq![JC]
    } else {
        seq![0x0fu8, JC_LONG]
    }
}

/// The opcode bytes of `jump_if_not_carry`.
pub open spec fn jnc_opcode() -> Seq<u8> {
    seq![JNC]
}

/// The opcode bytes of `jump_if_zero`.
pub open spec fn jz_opcode() -> Seq<u8> {
    seq![JE]
}

/// The opcode bytes of `jump_if_not_zero`.
pub open spec fn jnz_opcode() -> Seq<u8> {
    seq![JNE]
}

/// The opcode bytes of `jump_if_signed`.
pub open spec fn js_opcode() -> Seq<u8> {
    seq![JS]
}

/// The opcode bytes of `jump_if_not_signed`.
pub open spec fn jns_opcode() -> Seq<u8> {
    seq![JNS]
}

/// The opcode bytes of `jump_if_not_less`.
pub open spec fn jnl_opcode() -> Seq<u8> {
    seq![JNL]
}

/// The opcode bytes of `call_label`.
pub open spec fn call_opcode() -> Seq<u8> {
    seq![CALL]
}

/// How far the stack is moved down before a call so that a frame of `frame`
/// bytes ends on a 16-byte boundary: between 1 and 16 bytes.
pub open spec fn call_align(frame: int) -> int {
    16 - frame % 16
}

/// The frame size once the caller-saved registers that hold a value are
/// pushed.
pub open spec fn pushed_frame(s: RcState) -> int {
    s.frame + 8 * count_bound(X64Reg::spec_caller_saved_regs(), s.bindings)
}

/// The code of a call whose instruction is `call`, made in state `s`: the
/// caller-saved registers that hold a value are pushed, the stack is moved
/// down to a 16-byte boundary, the call is made, the stack is moved back up
/// and the registers are popped in reverse order.
pub open spec fn call_code(s: RcState, call: Seq<u8>) -> Seq<u8> {
    let regs = X64Reg::spec_caller_saved_regs();
    let align = call_align(pushed_frame(s));
    push_bound(regs, s.bindings) + enc_addq_ir(-align as i32, X64Reg::RSP) + call + enc_addq_ir(
        align as i32,
        X64Reg::RSP,
    ) + pop_bound(regs, s.bindings)
}

/// `call` with `value` bound to a register first, and the call made through
/// that register.
pub open spec fn spec_call(s: RcState, value: JITValue) -> RcState {
    let s1 = bind_step(s, seq![value]);
    emit_step(s1, call_code(s1, enc_callq_r(reg_in(s1, value))))
}

impl Recompiler {
    /// The frame layout of `self` is that of `old`.
    pub open spec fn same_frame(self, old: Recompiler) -> bool {
        &&& self.variables() == old.variables()
        &&& self.emu_regs() == old.emu_regs()
        &&& self.emulator_ptrs() == old.emulator_ptrs()
        &&& self.native_ptrs() == old.native_ptrs()
    }

    /// `self` is `old` with one more label handed out.
    pub open spec fn counted(self, old: Recompiler) -> bool {
        &&& self.wf()
        &&& self.same_frame(old)
        &&& self.state() == old.state()
        &&& self.label_count() == old.label_count() + 1
        &&& self.uses() == old.uses()
        &&& self.defs() == old.defs()
    }

    /// `self` is `old` with `prefix` and a placeholder for `label` emitted,
    /// the placeholder recorded as a use of `label`, and the stack grown by
    /// `delta` bytes of local variables.
    pub open spec fn jumped(self, old: Recompiler, prefix: Seq<u8>, label: Label, delta: int) -> bool {
        &&& self.wf()
        &&& self.emu_regs() == old.emu_regs()
        &&& self.emulator_ptrs() == old.emulator_ptrs()
        &&& self.native_ptrs() == old.native_ptrs()
        &&& self.variables() == old.variables() + delta
        &&& self.state().bindings == old.state().bindings
        &&& self.state().code == old.state().code + prefix + placeholder(label)
        &&& self.state().frame == old.state().frame + delta
        &&& self.label_count() == old.label_count()
        &&& self.uses() == old.uses().push(
            (StackOffset((old.state().code.len() + prefix.len()) as i32), label),
        )
        &&& self.defs() == old.defs()
    }

    /// The offset from `%rsp` of the `idx`-th emulator pointer while a call
    /// made in the state of `self` is under way.
    pub open spec fn ptr_offset_in_call(self, idx: int) -> i32 {
        let s = self.state();
        (pushed_frame(s) + call_align(pushed_frame(s)) - self.native_ptrs() - self.emulator_ptrs()
            + idx * 8) as i32
    }

    /// A fresh label whose displacement is one byte wide.
    pub fn new_label(&mut self) -> (label: Label)
        requires
            old(self).wf(),
            old(self).label_count() < usize::MAX,
        ensures
            final(self).counted(*old(self)),
            label.spec_id() == old(self).label_count(),
            label.spec_size() == 1,
    {
        self.assembler.new_label()
    }

    /// A fresh label whose displacement is four bytes wide.
    pub fn new_long_label(&mut self) -> (label: Label)
        requires
            old(self).wf(),
            old(self).label_count() < usize::MAX,
        ensures
            final(self).counted(*old(self)),
            label.spec_id() == old(self).label_count(),
            label.spec_size() == 4,
    {
        self.assembler.new_long_label()
    }

    /// Makes `label` point at the end of the code emitted so far.
    pub fn define_label(&mut self, label: Label)
        requires
            old(self).wf(),
            old(self).state().code.len() <= i32::MAX,
        ensures
            final(self).wf(),
            final(self).same_frame(*old(self)),
            final(self).state() == old(self).state(),
            final(self).label_count() == old(self).label_count(),
            final(self).uses() == old(self).uses(),
            final(self).defs() == old(self).defs().insert(
                label,
                StackOffset(old(self).state().code.len() as i32),
            ),
    {
        self.assembler.define_label(label);
    }

    /// Jumps to `label`.
    pub fn jump(&mut self, label: Label)
        requires
            old(self).wf(),
            label_size_ok(label),
            old(self).state().code.len() + 5 <= i32::MAX,
        ensures
            final(self).jumped(*old(self), jmp_opcode(), label, 0),
    {
        self.assembler.emit_jmp_label(label);
    }

    /// Jumps to `label` if the carry flag is set, in the short or the long
    /// form by the label's width.
    pub fn jump_if_carry(&mut self, label: Label)
        requires
            old(self).wf(),
            label_size_ok(label),
            old(self).state().code.len() + 6 <= i32::MAX,
        ensures
            final(self).jumped(*old(self), jc_opcode(label), label, 0),
    {
        if label.size.0 == 1 {
            self.assembler.emit_jc_label(label);
        } else {
            self.assembler.emit_jc_long_label(label);
        }
    }

    /// Jumps to `label` if the carry flag is clear.
    pub fn jump_if_not_carry(&mut self, label: Label)
        requires
            old(self).wf(),
            label_size_ok(label),
            old(self).state().code.len() + 5 <= i32::MAX,
        ensures
            final(self).jumped(*old(self), jnc_opcode(), label, 0),
    {
        self.assembler.emit_jnc_label(label);
    }

    /// Jumps to `label` if the zero flag is set.
    pub fn jump_if_zero(&mut self, label: Label)
        requires
            old(self).wf(),
            label_size_ok(label),
            old(self).state().code.len() + 5 <= i32::MAX,
        ensures
            final(self).jumped(*old(self), jz_opcode(), label, 0),
    {
        self.assembler.emit_je_label(label);
    }

    /// Jumps to `label` if the zero flag is clear.
    pub fn jump_if_not_zero(&mut self, label: Label)
        requires
            old(self).wf(),
            label_size_ok(label),
            old(self).state().code.len() + 5 <= i32::MAX,
        ensures
            final(self).jumped(*old(self), jnz_opcode(), label, 0),
    {
        self.assembler.emit_jne_label(label);
    }

    /// Jumps to `label` if the sign flag is set.
    pub fn jump_if_signed(&mut self, label: Label)
        requires
            old(self).wf(),
            label_size_ok(label),
            old(self).state().code.len() + 5 <= i32::MAX,
        ensures
            final(self).jumped(*old(self), js_opcode(), label, 0),
    {
        self.assembler.emit_js_label(label);
    }

    /// Jumps to `label` if the sign flag is clear.
    pub fn jump_if_not_signed(&mut self, label: Label)
        requires
            old(self).wf(),
            label_size_ok(label),
            old(self).state().code.len() + 5 <= i32::MAX,
        ensures
            final(self).jumped(*old(self), jns_opcode(), label, 0),
    {
        self.assembler.emit_jns_label(label);
    }

    /// Jumps to `label` if the last comparison was not "less than".
    pub fn jump_if_not_less(&mut self, label: Label)
        requires
            old(self).wf(),
            label_size_ok(label),
            old(self).state().code.len() + 5 <= i32::MAX,
        ensures
            final(self).jumped(*old(self), jnl_opcode(), label, 0),
    {
        self.assembler.emit_jnl_label(label);
    }

    /// Calls the code at `label`; the return address it pushes counts as 8
    /// bytes of the frame until the matching return.
    pub fn call_label(&mut self, label: Label)
        requires
            old(self).wf(),
            label_size_ok(label),
            old(self).state().code.len() + 5 <= i32::MAX,
            old(self).state().frame + 8 <= i32::MAX,
        ensures
            final(self).jumped(*old(self), call_opcode(), label, 8),
    {
        proof {
            self.lemma_wf();
        }
        let offset = self.assembler.emit_call_label(label);
        self.allocator.stack_mut().add_assign(offset);
    }

    /// Returns from code reached by `call_label`: the return address, 8
    /// bytes, leaves the stack, and is taken off the local variables.
    pub fn ret(&mut self)
        requires
            old(self).wf(),
            old(self).state().frame >= 8,
        ensures
            final(self).grew(*old(self), -8, enc_retq()),
    {
        proof {
            self.lemma_wf();
        }
        let offset = self.assembler.emit_retq();
        self.grow_stack(offset);
    }

    /// Pushes the caller-saved registers that hold a value, aligns the
    /// stack, calls through `reg` or through the `ptr_idx`-th emulator
    /// pointer, and undoes the rest; the frame and bindings are as before.
    fn call_around(&mut self, reg: X64Reg, ptr_idx: usize, through_reg: bool)
        requires
            old(self).wf(),
            old(self).state().frame + 88 + ptr_idx * 8 <= i32::MAX,
        ensures
            final(self).stepped(
                *old(self),
                emit_step(
                    old(self).state(),
                    call_code(
                        old(self).state(),
                        if through_reg {
                            enc_callq_r(reg)
                        } else {
                            enc_callq_m_offset(X64Reg::RSP, old(self).ptr_offset_in_call(ptr_idx as int))
                        },
                    ),
                ),
            ),
    {
        let ghost s = self.state();
        let ghost regs = X64Reg::spec_caller_saved_regs();
        proof {
            lemma_count_bound(regs, s.bindings);
            self.lemma_wf();
        }
        self.sysv_caller_prologue();
        proof {
            self.lemma_wf();
        }
        let stack = self.allocator.full_stack();
        let misalignment: u32 = (stack.0 as u32) % 16;
        let align: i32 = 16 - misalignment as i32;
        assert(align == call_align(pushed_frame(s)));
        let down = self.assembler.emit_addq_ir(-align, X64Reg::RSP);
        self.grow_stack(down);
        proof {
            self.lemma_wf();
        }
        if through_reg {
            self.assembler.emit_callq_r(reg);
        } else {
            let offset = self.allocator.ptr_position(ptr_idx);
            assert(offset.0 == old(self).ptr_offset_in_call(ptr_idx as int));
            self.assembler.emit_callq_m_offset(X64Reg::RSP, offset);
        }
        let up = self.assembler.emit_addq_ir(align, X64Reg::RSP);
        self.grow_stack(up);
        self.sysv_caller_epilogue();
        proof {
            assert(self.state().code =~= s.code + call_code(
                s,
                if through_reg {
                    enc_callq_r(reg)
                } else {
                    enc_callq_m_offset(X64Reg::RSP, old(self).ptr_offset_in_call(ptr_idx as int))
                },
            ));
        }
    }

    /// Calls the function whose address is the `ptr_idx`-th emulator
    /// pointer, saving the caller-saved registers around it and aligning
    /// the stack for it.
    pub fn call_ptr(&mut self, ptr_idx: usize)
        requires
            old(self).wf(),
            old(self).state().frame + 88 + ptr_idx * 8 <= i32::MAX,
        ensures
            final(self).stepped(
                *old(self),
                emit_step(
                    old(self).state(),
                    call_code(
                        old(self).state(),
                        enc_callq_m_offset(X64Reg::RSP, old(self).ptr_offset_in_call(ptr_idx as int)),
                    ),
                ),
            ),
    {
        self.call_around(X64Reg::RAX, ptr_idx, false);
    }

    /// Calls the function whose address `value` holds, saving the
    /// caller-saved registers around it and aligning the stack for it.
    pub fn call(&mut self, value: JITValue)
        requires
            old(self).wf(),
            valid_value(value),
            old(self).state().frame + 88 <= i32::MAX,
        ensures
            final(self).stepped(*old(self), spec_call(old(self).state(), value)),
    {
        let reg = self.bind_value(value);
        self.call_around(reg, 0, true);
    }
}

} // verus!
