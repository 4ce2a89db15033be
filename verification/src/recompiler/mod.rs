//! The recompiler: emulator-level operations on JIT values, turned into
//! x86-64 code with registers bound on demand.

use vstd::prelude::*;
use crate::allocator::bind_in;
use crate::allocator::injective;
use crate::allocator::is_bound;
use crate::allocator::registers::bind_moves;
use crate::allocator::registers::bind_steps;
use crate::allocator::registers::keep;
use crate::allocator::registers::lemma_bind_multivalue_binds_all;
use crate::allocator::registers::lemma_bind_steps_origin;
use crate::allocator::registers::lemma_can_bind;
use crate::allocator::registers::lemma_keep;
use crate::allocator::registers::lemma_prioritized_distinct;
use crate::allocator::registers::load;
use crate::allocator::registers::spec_prioritized;
use crate::allocator::registers::spec_replacements;
use crate::allocator::registers::spec_unbound_values;
use crate::allocator::registers::spill;
use crate::allocator::Allocator;
use crate::assembler::add::enc_addq_ir;
use crate::assembler::stack::enc_popq_r;
use crate::assembler::stack::enc_pushq_r;
use crate::assembler::ui::enc_transfers;
use crate::assembler::ui::transfer_ok;
use crate::assembler::Assembler;
use crate::EmuReg;
use crate::GenericValue;
use crate::JITValue;
use crate::Label;
use crate::StackOffset;
use crate::Variable;
use crate::X64Reg;

pub mod abi;
pub mod laws;
pub mod ui;

verus! {

/// What the recompiler has produced so far: the register bindings, the
/// code, and the size of the stack frame that the code is running in.
pub struct RcState {
    pub bindings: Map<X64Reg, JITValue>,
    pub code: Seq<u8>,
    pub frame: int,
}

/// Whether a value has a home on the stack, at a non-negative position.
pub open spec fn has_slot(v: JITValue) -> bool {
    v.has_home() && 0 <= v.spec_position().0
}

/// Whether a value can be bound to a register: it has a home, and is four
/// or eight bytes wide, so that it can be loaded and stored.
pub open spec fn valid_value(v: JITValue) -> bool {
    has_slot(v) && (v.spec_size().0 == 4 || v.spec_size().0 == 8)
}

/// The bindings after binding all of `values` at once.
pub open spec fn bound_after(b: Map<X64Reg, JITValue>, values: Seq<JITValue>) -> Map<X64Reg, JITValue> {
    bind_steps(b, spec_unbound_values(b, values), spec_replacements(b, values))
}

/// The code that binding all of `values` at once emits, in a frame of size
/// `frame`.
pub open spec fn bind_code(b: Map<X64Reg, JITValue>, values: Seq<JITValue>, frame: int) -> Seq<u8> {
    enc_transfers(
        bind_moves(b, spec_unbound_values(b, values), spec_replacements(b, values)),
        StackOffset(frame as i32),
    )
}

/// The register that `v` is bound to in `b`.
pub open spec fn reg_of(b: Map<X64Reg, JITValue>, v: JITValue) -> X64Reg {
    choose|r: X64Reg| b.contains_key(r) && b[r] == v
}

/// The state after binding all of `values` at once.
pub open spec fn bind_step(s: RcState, values: Seq<JITValue>) -> RcState {
    RcState {
        bindings: bound_after(s.bindings, values),
        code: s.code + bind_code(s.bindings, values, s.frame),
        frame: s.frame,
    }
}

/// The state after appending `tail` to the code.
pub open spec fn emit_step(s: RcState, tail: Seq<u8>) -> RcState {
    RcState { bindings: s.bindings, code: s.code + tail, frame: s.frame }
}

/// The state after binding `value` to `reg`: what `reg` held is stored, and
/// `value` is loaded.
pub open spec fn specific_step(s: RcState, value: JITValue, reg: X64Reg) -> RcState {
    RcState {
        bindings: bind_in(s.bindings, reg, value),
        code: s.code + enc_transfers(
            spill(s.bindings, reg) + seq![load(reg, value)],
            StackOffset(s.frame as i32),
        ),
        frame: s.frame,
    }
}

/// The register that `v` is bound to in state `s`.
pub open spec fn reg_in(s: RcState, v: JITValue) -> X64Reg {
    reg_of(s.bindings, v)
}

/// Pushes of those of `regs` that hold a value, in order.
pub open spec fn push_bound(regs: Seq<X64Reg>, b: Map<X64Reg, JITValue>) -> Seq<u8>
    decreases regs.len(),
{
    if regs.len() == 0 {
        Seq::empty()
    } else {
        push_bound(regs.drop_last(), b) + (if b.contains_key(regs.last()) {
            enc_pushq_r(regs.last())
        } else {
            Seq::empty()
        })
    }
}

/// Pops of those of `regs` that hold a value, in reverse order.
pub open spec fn pop_bound(regs: Seq<X64Reg>, b: Map<X64Reg, JITValue>) -> Seq<u8>
    decreases regs.len(),
{
    if regs.len() == 0 {
        Seq::empty()
    } else {
        (if b.contains_key(regs.last()) {
            enc_popq_r(regs.last())
        } else {
            Seq::empty()
        }) + pop_bound(regs.drop_last(), b)
    }
}

/// How many of `regs` hold a value.
pub open spec fn count_bound(regs: Seq<X64Reg>, b: Map<X64Reg, JITValue>) -> int
    decreases regs.len(),
{
    if regs.len() == 0 {
        0
    } else {
        count_bound(regs.drop_last(), b) + (if b.contains_key(regs.last()) {
            1int
        } else {
            0int
        })
    }
}

/// At most all of `regs` hold a value.
pub proof fn lemma_count_bound(regs: Seq<X64Reg>, b: Map<X64Reg, JITValue>)
    ensures
        0 <= count_bound(regs, b) <= regs.len(),
    decreases regs.len(),
{
    if regs.len() > 0 {
        lemma_count_bound(regs.drop_last(), b);
    }
}

/// Binding values that are all bound already changes nothing and emits
/// nothing.
pub proof fn law_bind_bound(s: RcState, values: Seq<JITValue>)
    requires
        forall|v: JITValue| #[trigger] values.contains(v) ==> is_bound(s.bindings, v),
    ensures
        bind_step(s, values) == s,
{
    let p = |v: JITValue| !is_bound(s.bindings, v);
    let un = spec_unbound_values(s.bindings, values);
    lemma_keep(values, p);
    if un.len() > 0 {
        assert(un.contains(un[0]));
    }
    assert(un =~= Seq::<JITValue>::empty());
    let moves = bind_moves(s.bindings, un, spec_replacements(s.bindings, values));
    assert(moves =~= Seq::<crate::Transfer>::empty());
    assert(enc_transfers(moves, StackOffset(s.frame as i32)) =~= Seq::<u8>::empty());
    assert(bind_step(s, values).code =~= s.code);
}

/// A recompiler: a register allocator and an assembler that work together.
pub struct Recompiler {
    allocator: Allocator,
    assembler: Assembler,
}

impl Recompiler {
    /// The bindings, the code, and the frame size.
    pub closed spec fn state(self) -> RcState {
        RcState {
            bindings: self.allocator.bindings(),
            code: self.assembler.bytes(),
            frame: self.allocator.spec_full_stack(),
        }
    }

    /// The bytes of local variables on the stack.
    pub closed spec fn variables(self) -> int {
        self.allocator.spec_stack().0 as int
    }

    /// The emulator registers kept on the stack.
    pub closed spec fn emu_regs(self) -> Seq<EmuReg> {
        self.allocator.spec_emulator_regs()
    }

    /// The bytes of pushed emulator pointers.
    pub closed spec fn emulator_ptrs(self) -> int {
        self.allocator.spec_emulator_ptrs().0 as int
    }

    /// The bytes pushed on entry.
    pub closed spec fn native_ptrs(self) -> int {
        self.allocator.spec_native_ptrs().0 as int
    }

    /// The number of labels handed out.
    pub closed spec fn label_count(self) -> nat {
        self.assembler.label_count()
    }

    /// The recorded uses of labels.
    pub closed spec fn uses(self) -> Seq<(StackOffset, Label)> {
        self.assembler.uses()
    }

    /// Where labels are defined.
    pub closed spec fn defs(self) -> Map<Label, StackOffset> {
        self.assembler.defs()
    }

    /// The recompiler's invariant: the parts are well formed, the frame and
    /// every part of it but the local variables (which a return may take
    /// below zero) are non-negative, the frame and the parts other than the
    /// local variables each total an `i32`, emulator
    /// registers are four-byte values at non-negative positions whose slot
    /// in the emulator's register file is at an `i32` offset, and every
    /// bound register is one the allocator may use and holds a value that
    /// can be loaded and stored.
    pub closed spec fn wf(self) -> bool {
        &&& self.allocator.wf()
        &&& self.assembler.wf()
        &&& 0 <= self.allocator.spec_full_stack()
        &&& crate::allocator::emu_size_sum(self.allocator.spec_emulator_regs())
            + self.allocator.spec_emulator_ptrs().0 + self.allocator.spec_native_ptrs().0 <= i32::MAX
        &&& self.allocator.spec_emulator_ptrs().0 >= 0
        &&& self.allocator.spec_native_ptrs().0 >= 0
        &&& forall|i: int|
            0 <= i < self.allocator.spec_emulator_regs().len() ==> (
            #[trigger] self.allocator.spec_emulator_regs()[i]).size.0 == 4
                && self.allocator.spec_emulator_regs()[i].position.0 >= 0
                && self.allocator.spec_emulator_regs()[i].name.0 * 4 <= i32::MAX
        &&& self.allocator.spec_full_stack() <= i32::MAX
        &&& forall|r: X64Reg|
            #[trigger] self.allocator.bindings().contains_key(r) ==> r != X64Reg::RSP && valid_value(
                self.allocator.bindings()[r],
            )
    }

    /// `self` is well formed, has the frame layout and labels of `old`, and
    /// has state `s`.
    pub open spec fn stepped(self, old: Recompiler, s: RcState) -> bool {
        &&& self.wf()
        &&& self.same_layout(old)
        &&& self.state() == s
    }

    /// `self` has the frame layout and labels of `old`.
    pub open spec fn same_layout(self, old: Recompiler) -> bool {
        &&& self.variables() == old.variables()
        &&& self.emu_regs() == old.emu_regs()
        &&& self.emulator_ptrs() == old.emulator_ptrs()
        &&& self.native_ptrs() == old.native_ptrs()
        &&& self.state().frame == old.state().frame
        &&& self.label_count() == old.label_count()
        &&& self.uses() == old.uses()
        &&& self.defs() == old.defs()
    }

    proof fn lemma_wf(self)
        requires
            self.wf(),
        ensures
            self.allocator.frame_fits(),
            0 <= self.allocator.spec_full_stack() <= i32::MAX,
            crate::allocator::emu_size_sum(self.allocator.spec_emulator_regs()) >= 0,
            injective(self.allocator.bindings()),
            forall|r: X64Reg|
                #[trigger] self.allocator.bindings().contains_key(r) ==> r != X64Reg::RSP
                    && self.allocator.bindings()[r].has_home(),
    {
        self.allocator.lemma_frame_fits();
        self.allocator.lemma_wf_injective();
    }

    /// Binds all of `values` at once and emits the moves that calls for;
    /// returns the register of each, in order.
    fn bind_multivalue(&mut self, values: Vec<JITValue>) -> (regs: Vec<X64Reg>)
        requires
            old(self).wf(),
            values.len() <= 15,
            forall|i: int| 0 <= i < values.len() ==> valid_value(#[trigger] values@[i]),
        ensures
            final(self).wf(),
            final(self).same_layout(*old(self)),
            final(self).state() == bind_step(old(self).state(), values@),
            regs.len() == values.len(),
            forall|i: int|
                0 <= i < values.len() ==> #[trigger] regs@[i] == reg_in(final(self).state(), values@[i])
                    && final(self).state().bindings.contains_key(regs@[i])
                    && final(self).state().bindings[regs@[i]] == values@[i],
    {
        let ghost b = self.allocator.bindings();
        let ghost un = spec_unbound_values(b, values@);
        let ghost repl = spec_replacements(b, values@);
        proof {
            self.lemma_wf();
            lemma_can_bind(b, values@);
            lemma_bind_steps_origin(b, un, repl);
            lemma_bind_multivalue_binds_all(b, values@);
            lemma_prioritized_distinct(b);
            lemma_keep(spec_prioritized(b), |r: X64Reg| !(b.contains_key(r) && values@.contains(b[r])));
            lemma_keep(values@, |v: JITValue| !is_bound(b, v));
        }
        let transfers = self.allocator.bind_multivalue(&values);
        let stack = self.allocator.full_stack();
        proof {
            assert forall|i: int| 0 <= i < transfers.0.len() implies transfer_ok(
                #[trigger] transfers.0@[i],
                stack,
            ) by {
                let t = transfers.0@[i];
                if let GenericValue::JITValue(v) = t.other {
                    if is_bound(b, v) {
                        let r = choose|r: X64Reg| #[trigger] b.contains_key(r) && b[r] == v;
                        assert(valid_value(b[r]));
                    } else {
                        assert(un.contains(v));
                        let j = choose|j: int| 0 <= j < values.len() && values@[j] == v;
                        assert(valid_value(values@[j]));
                    }
                }
            }
        }
        self.assembler.emit_transfers(transfers.0, stack);
        proof {
            let nb = self.allocator.bindings();
            assert forall|r: X64Reg| #[trigger] nb.contains_key(r) implies r != X64Reg::RSP && valid_value(
                nb[r],
            ) by {
                if b.contains_key(r) {
                } else {
                    assert(repl.contains(r));
                    assert(spec_prioritized(b).contains(r));
                }
                let v = nb[r];
                if is_bound(b, v) {
                    let x = choose|x: X64Reg| #[trigger] b.contains_key(x) && b[x] == v;
                    assert(valid_value(b[x]));
                } else {
                    assert(un.contains(v));
                    let j = choose|j: int| 0 <= j < values.len() && values@[j] == v;
                    assert(valid_value(values@[j]));
                }
            }
            self.allocator.lemma_wf_injective();
        }
        let mut bound_regs: Vec<X64Reg> = Vec::new();
        let mut i: usize = 0;
        while i < values.len()
            invariant
                0 <= i <= values.len(),
                self.allocator.wf(),
                injective(self.allocator.bindings()),
                forall|v: JITValue| #[trigger] values@.contains(v) ==> is_bound(self.allocator.bindings(), v),
                bound_regs.len() == i,
                forall|j: int|
                    0 <= j < i ==> #[trigger] bound_regs@[j] == reg_of(self.allocator.bindings(), values@[j])
                        && self.allocator.bindings().contains_key(bound_regs@[j])
                        && self.allocator.bindings()[bound_regs@[j]] == values@[j],
            decreases values.len() - i,
        {
            let v = values[i];
            assert(values@.contains(v));
            match self.allocator.value_to_reg(&v) {
                Some(r) => {
                    let ghost nb = self.allocator.bindings();
                    assert(nb.contains_key(reg_of(nb, v)) && nb[reg_of(nb, v)] == v);
                    bound_regs.push(r);
                },
                None => {
                    proof {
                        assert(false);
                    }
                },
            }
            i = i + 1;
        }
        bound_regs
    }

    /// Binds `value` and emits the moves that calls for; returns its register.
    fn bind_value(&mut self, value: JITValue) -> (reg: X64Reg)
        requires
            old(self).wf(),
            valid_value(value),
        ensures
            final(self).wf(),
            final(self).same_layout(*old(self)),
            final(self).state() == bind_step(old(self).state(), seq![value]),
            reg == reg_in(final(self).state(), value),
            final(self).state().bindings.contains_key(reg),
            final(self).state().bindings[reg] == value,
    {
        let values = vec![value];
        assert(values@ == seq![value]);
        let regs = self.bind_multivalue(values);
        regs[0]
    }

    /// Binds `value` to `reg` and emits the moves that calls for.
    fn bind_specific_reg(&mut self, value: JITValue, reg: X64Reg)
        requires
            old(self).wf(),
            valid_value(value),
            reg != X64Reg::RSP,
        ensures
            final(self).wf(),
            final(self).same_layout(*old(self)),
            final(self).state() == specific_step(old(self).state(), value, reg),
    {
        let ghost b = self.allocator.bindings();
        proof {
            self.lemma_wf();
        }
        let transfers = self.allocator.bind_specific_reg(value, reg);
        let stack = self.allocator.full_stack();
        proof {
            assert forall|i: int| 0 <= i < transfers.0.len() implies transfer_ok(
                #[trigger] transfers.0@[i],
                stack,
            ) by {
                if i == 0 && b.contains_key(reg) {
                    assert(valid_value(b[reg]));
                }
            }
        }
        self.assembler.emit_transfers(transfers.0, stack);
        proof {
            let nb = self.allocator.bindings();
            assert forall|r: X64Reg| #[trigger] nb.contains_key(r) implies r != X64Reg::RSP && valid_value(
                nb[r],
            ) by {
                if r != reg {
                    assert(b.contains_key(r));
                }
            }
        }
    }
}

impl Recompiler {
    /// `self` is `old` with the local-variable area grown by `delta` bytes and
    /// `code` appended; nothing else changed.
    pub open spec fn grew(self, old: Recompiler, delta: int, code: Seq<u8>) -> bool {
        &&& self.wf()
        &&& self.state().bindings == old.state().bindings
        &&& self.state().code == old.state().code + code
        &&& self.state().frame == old.state().frame + delta
        &&& self.variables() == old.variables() + delta
        &&& self.emu_regs() == old.emu_regs()
        &&& self.emulator_ptrs() == old.emulator_ptrs()
        &&& self.native_ptrs() == old.native_ptrs()
        &&& self.label_count() == old.label_count()
        &&& self.uses() == old.uses()
        &&& self.defs() == old.defs()
    }

    /// Adds `delta` to the local-variable area.
    fn grow_stack(&mut self, delta: StackOffset)
        requires
            old(self).wf(),
            old(self).state().frame + delta.0 >= 0,
            old(self).state().frame + delta.0 <= i32::MAX,
        ensures
            final(self).grew(*old(self), delta.0 as int, Seq::empty()),
    {
        proof {
            self.lemma_wf();
        }
        self.allocator.stack_mut().add_assign(delta);
        proof {
            assert(self.assembler.bytes() =~= old(self).assembler.bytes() + Seq::<u8>::empty());
        }
    }

    /// Makes room for a new local variable of `size` bytes, whose home is
    /// at the new bottom of the frame.
    fn new_variable(&mut self, size: StackOffset) -> (v: JITValue)
        requires
            old(self).wf(),
            0 < size.0,
            old(self).state().frame + size.0 <= i32::MAX,
        ensures
            final(self).grew(*old(self), size.0 as int, enc_addq_ir(-size.0 as i32, X64Reg::RSP)),
            v == JITValue::Variable(
                Variable {
                    position: StackOffset((old(self).state().frame + size.0) as i32),
                    size: size,
                },
            ),
    {
        proof {
            self.lemma_wf();
        }
        let offset = self.assembler.emit_addq_ir(-size.0, X64Reg::RSP);
        self.grow_stack(offset);
        let position = self.allocator.full_stack();
        JITValue::Variable(Variable { position, size })
    }

    /// Pushes the caller-saved registers that hold a value, in order.
    fn sysv_caller_prologue(&mut self)
        requires
            old(self).wf(),
            old(self).state().frame + 8 * 9 <= i32::MAX,
        ensures
            final(self).grew(
                *old(self),
                8 * count_bound(X64Reg::spec_caller_saved_regs(), old(self).state().bindings),
                push_bound(X64Reg::spec_caller_saved_regs(), old(self).state().bindings),
            ),
    {
        let ghost b = self.allocator.bindings();
        let regs = X64Reg::caller_saved_regs();
        let mut offset = StackOffset(0);
        let mut i: usize = 0;
        while i < regs.len()
            invariant
                0 <= i <= regs.len(),
                regs@ == X64Reg::spec_caller_saved_regs(),
                self.allocator == old(self).allocator,
                self.assembler.wf(),
                self.assembler.label_count() == old(self).assembler.label_count(),
                self.assembler.uses() == old(self).assembler.uses(),
                self.assembler.defs() == old(self).assembler.defs(),
                self.assembler.bytes() == old(self).assembler.bytes() + push_bound(
                    regs@.take(i as int),
                    b,
                ),
                offset.0 == 8 * count_bound(regs@.take(i as int), b),
                b == self.allocator.bindings(),
                self.allocator.wf(),
            decreases regs.len() - i,
        {
            let r = regs[i];
            proof {
                let t = regs@.take(i + 1);
                assert(t.drop_last() == regs@.take(i as int));
                assert(t.last() == r);
                lemma_count_bound(regs@.take(i as int), b);
            }
            if self.allocator.contains_reg(&r) {
                let o = self.assembler.emit_pushq_r(r);
                offset = offset + o;
            }
            i = i + 1;
        }
        proof {
            assert(regs@.take(regs.len() as int) == regs@);
            lemma_count_bound(regs@, b);
            self.lemma_wf();
        }
        self.grow_stack(offset);
    }

    /// Pops the caller-saved registers that hold a value, in reverse order.
    fn sysv_caller_epilogue(&mut self)
        requires
            old(self).wf(),
            old(self).state().frame >= 8 * count_bound(
                X64Reg::spec_caller_saved_regs(),
                old(self).state().bindings,
            ),
        ensures
            final(self).grew(
                *old(self),
                -8 * count_bound(X64Reg::spec_caller_saved_regs(), old(self).state().bindings),
                pop_bound(X64Reg::spec_caller_saved_regs(), old(self).state().bindings),
            ),
    {
        let ghost b = self.allocator.bindings();
        let regs = X64Reg::caller_saved_regs();
        let mut offset = StackOffset(0);
        let mut i: usize = regs.len();
        assert(regs@.take(regs.len() as int) == regs@);
        while i > 0
            invariant
                0 <= i <= regs.len(),
                regs@ == X64Reg::spec_caller_saved_regs(),
                self.allocator == old(self).allocator,
                self.assembler.wf(),
                self.assembler.label_count() == old(self).assembler.label_count(),
                self.assembler.uses() == old(self).assembler.uses(),
                self.assembler.defs() == old(self).assembler.defs(),
                self.assembler.bytes() + pop_bound(regs@.take(i as int), b) == old(self).assembler.bytes()
                    + pop_bound(regs@, b),
                offset.0 == -8 * (count_bound(regs@, b) - count_bound(regs@.take(i as int), b)),
                b == self.allocator.bindings(),
                self.allocator.wf(),
            decreases i,
        {
            let r = regs[i - 1];
            proof {
                let t = regs@.take(i as int);
                assert(t.drop_last() == regs@.take(i - 1));
                assert(t.last() == r);
                lemma_count_bound(regs@.take(i - 1), b);
                lemma_count_bound(regs@, b);
            }
            let ghost before = self.assembler.bytes();
            if self.allocator.contains_reg(&r) {
                let o = self.assembler.emit_popq_r(r);
                offset = offset + o;
            }
            proof {
                let t = regs@.take(i as int);
                let tail = pop_bound(regs@.take(i - 1), b);
                assert(self.assembler.bytes() + tail =~= before + pop_bound(t, b));
            }
            i = i - 1;
        }
        proof {
            assert(regs@.take(0) == Seq::<X64Reg>::empty());
            assert(self.assembler.bytes() =~= old(self).assembler.bytes() + pop_bound(regs@, b));
            lemma_count_bound(regs@, b);
            self.lemma_wf();
        }
        self.grow_stack(offset);
    }
}

} // verus!
