//! The register allocator: which host register holds which value, and how
//! the JIT stack frame is laid out.

use vstd::prelude::*;
use crate::allocator::regmap::bimap_contents;
use crate::allocator::regmap::bimap_get_by_left;
use crate::allocator::regmap::bimap_get_by_right;
use crate::allocator::regmap::bimap_insert;
use crate::allocator::regmap::bimap_new;
use crate::allocator::regmap::bimap_pairs;
use crate::allocator::regmap::bimap_remove_by_left;
use crate::allocator::regmap::bimap_retain_non_emu;
use crate::allocator::regmap::without_emu_regs;
use crate::allocator::regmap::without_right;
use crate::allocator::regmap::RegMap;
use crate::allocator::regmap::ValueKey;
use crate::EmuReg;
use crate::EmuRegName;
use crate::Idx;
use crate::JITValue;
use crate::StackOffset;
use crate::StackOffsetType;
use crate::Variable;
use crate::X64Reg;

pub mod regmap;
pub mod queues;
pub mod registers;

verus! {

/// The integers that stand for a value in the register map.
pub open spec fn key_of(v: JITValue) -> ValueKey {
    match v {
        JITValue::EmuReg(r) => (0u8, r.name.0, r.position.0, r.size.0, 0usize),
        JITValue::Variable(x) => (1u8, 0u32, x.position.0, x.size.0, 0usize),
        JITValue::Flags(i) => (2u8, 0u32, 0i32, 0i32, i.0),
        JITValue::DelayedWrite(r, i) => (3u8, r.name.0, r.position.0, r.size.0, i.0),
    }
}

/// The value that the integers `k` stand for.
pub open spec fn value_of(k: ValueKey) -> JITValue {
    if k.0 == 0 {
        JITValue::EmuReg(
            EmuReg { name: EmuRegName(k.1), position: StackOffset(k.2), size: StackOffset(k.3) },
        )
    } else if k.0 == 1 {
        JITValue::Variable(Variable { position: StackOffset(k.2), size: StackOffset(k.3) })
    } else if k.0 == 2 {
        JITValue::Flags(Idx(k.4))
    } else {
        JITValue::DelayedWrite(
            EmuReg { name: EmuRegName(k.1), position: StackOffset(k.2), size: StackOffset(k.3) },
            Idx(k.4),
        )
    }
}

/// A value is recovered from the integers that stand for it in the register
/// map, so two different values never share a key.
pub proof fn lemma_value_key(v: JITValue)
    ensures
        value_of(key_of(v)) == v,
{
}

/// A register is recovered from its encoding number, which is below 16.
pub proof fn lemma_reg_code(r: X64Reg)
    ensures
        X64Reg::from_code(r.code()) == r,
        r.code() < 16,
{
}

/// Every number below 16 is the encoding number of a register.
pub proof fn lemma_code_reg(n: u8)
    requires
        n < 16,
    ensures
        X64Reg::from_code(n).code() == n,
{
}

/// `b` with `v` bound to `r`: any earlier binding of `r`, and any other
/// register bound to `v`, are dropped.
pub open spec fn bind_in(b: Map<X64Reg, JITValue>, r: X64Reg, v: JITValue) -> Map<X64Reg, JITValue> {
    Map::new(|x: X64Reg| b.contains_key(x) && b[x] != v, |x: X64Reg| b[x]).insert(r, v)
}

/// Whether no two registers are bound to the same value.
pub open spec fn injective(b: Map<X64Reg, JITValue>) -> bool {
    forall|r1: X64Reg, r2: X64Reg|
        #[trigger] b.contains_key(r1) && #[trigger] b.contains_key(r2) && b[r1] == b[r2] ==> r1 == r2
}

/// Whether value `v` is bound to some register in `b`.
pub open spec fn is_bound(b: Map<X64Reg, JITValue>, v: JITValue) -> bool {
    exists|r: X64Reg| #[trigger] b.contains_key(r) && b[r] == v
}

/// The total size of the emulator registers kept on the stack.
pub open spec fn emu_size_sum(regs: Seq<EmuReg>) -> int
    decreases regs.len(),
{
    if regs.len() == 0 {
        0
    } else {
        emu_size_sum(regs.drop_last()) + regs.last().size.0
    }
}

proof fn lemma_emu_prefix_sum(regs: Seq<EmuReg>, k: int)
    requires
        0 <= k <= regs.len(),
        forall|i: int| 0 <= i < regs.len() ==> (#[trigger] regs[i]).size.0 >= 0,
    ensures
        0 <= emu_size_sum(regs.take(k)) <= emu_size_sum(regs),
    decreases regs.len(),
{
    if k == regs.len() {
        assert(regs.take(k) == regs);
        if regs.len() > 0 {
            lemma_emu_prefix_sum(regs.drop_last(), k - 1);
            assert(regs.drop_last().take(k - 1) == regs.drop_last());
        }
    } else {
        lemma_emu_prefix_sum(regs.drop_last(), k);
        assert(regs.drop_last().take(k) == regs.take(k));
    }
}

/// A register allocator: the bindings of host registers to values, and the
/// parts of the JIT stack frame: local variables, emulator registers,
/// pushed emulator pointers, and the native words pushed on entry.
pub struct Allocator {
    mappings: RegMap,
    stack: StackOffset,
    emulator_regs: Vec<EmuReg>,
    emulator_ptrs: StackOffset,
    native_ptrs: StackOffset,
}

impl Allocator {
    /// Which value each bound host register holds.
    pub closed spec fn bindings(self) -> Map<X64Reg, JITValue> {
        Map::new(
            |r: X64Reg| bimap_contents(self.mappings).contains_key(r.code()),
            |r: X64Reg| value_of(bimap_contents(self.mappings)[r.code()]),
        )
    }

    /// The bytes of local variables on the stack.
    pub closed spec fn spec_stack(self) -> StackOffset {
        self.stack
    }

    /// The emulator registers kept on the stack, in the order they were
    /// loaded.
    pub closed spec fn spec_emulator_regs(self) -> Seq<EmuReg> {
        self.emulator_regs@
    }

    /// The bytes of pushed emulator pointers.
    pub closed spec fn spec_emulator_ptrs(self) -> StackOffset {
        self.emulator_ptrs
    }

    /// The bytes pushed on entry: the return address and saved registers.
    pub closed spec fn spec_native_ptrs(self) -> StackOffset {
        self.native_ptrs
    }

    /// The size of the whole frame.
    pub open spec fn spec_full_stack(self) -> int {
        self.spec_stack().0 + emu_size_sum(self.spec_emulator_regs()) + self.spec_emulator_ptrs().0
            + self.spec_native_ptrs().0
    }

    /// Whether every running total in the computation of the frame size is
    /// an `i32`.
    pub open spec fn frame_fits(self) -> bool {
        &&& forall|k: int|
            0 <= k <= self.spec_emulator_regs().len() ==> i32::MIN <= #[trigger] emu_size_sum(
                self.spec_emulator_regs().take(k),
            ) <= i32::MAX
        &&& i32::MIN <= self.spec_stack().0 + emu_size_sum(self.spec_emulator_regs()) <= i32::MAX
        &&& i32::MIN <= self.spec_stack().0 + emu_size_sum(self.spec_emulator_regs())
            + self.spec_emulator_ptrs().0 <= i32::MAX
        &&& i32::MIN <= self.spec_full_stack() <= i32::MAX
    }

    /// The allocator's invariant: the map holds register numbers on the left
    /// and well-formed value keys on the right, one-to-one.
    pub closed spec fn wf(self) -> bool {
        let c = bimap_contents(self.mappings);
        &&& forall|l: u8|
            #[trigger] c.contains_key(l) ==> l < 16 && key_of(value_of(c[l])) == c[l]
        &&& forall|l1: u8, l2: u8|
            #[trigger] c.contains_key(l1) && #[trigger] c.contains_key(l2) && c[l1] == c[l2]
                ==> l1 == l2
    }

    /// `self` differs from `old` at most in its bindings.
    pub open spec fn same_frame(self, old: Allocator) -> bool {
        &&& self.spec_stack() == old.spec_stack()
        &&& self.spec_emulator_regs() == old.spec_emulator_regs()
        &&& self.spec_emulator_ptrs() == old.spec_emulator_ptrs()
        &&& self.spec_native_ptrs() == old.spec_native_ptrs()
    }

    /// With the frame and every part of it but the local variables
    /// non-negative, the frame fits in an `i32` as soon as its total and the
    /// total of the parts other than the local variables do.
    pub proof fn lemma_frame_fits(self)
        requires
            0 <= self.spec_full_stack(),
            emu_size_sum(self.spec_emulator_regs()) + self.spec_emulator_ptrs().0
                + self.spec_native_ptrs().0 <= i32::MAX,
            self.spec_emulator_ptrs().0 >= 0,
            self.spec_native_ptrs().0 >= 0,
            forall|i: int|
                0 <= i < self.spec_emulator_regs().len() ==> (#[trigger] self.spec_emulator_regs()[i]).size.0
                    >= 0,
            self.spec_full_stack() <= i32::MAX,
        ensures
            self.frame_fits(),
            self.spec_full_stack() >= 0,
            emu_size_sum(self.spec_emulator_regs()) >= 0,
    {
        let regs = self.spec_emulator_regs();
        lemma_emu_prefix_sum(regs, regs.len() as int);
        assert forall|k: int| 0 <= k <= regs.len() implies i32::MIN <= #[trigger] emu_size_sum(
            regs.take(k),
        ) <= i32::MAX by {
            lemma_emu_prefix_sum(regs, k);
        }
    }

    /// In a well-formed allocator no two registers hold the same value.
    pub proof fn lemma_wf_injective(self)
        requires
            self.wf(),
        ensures
            injective(self.bindings()),
    {
        let c = bimap_contents(self.mappings);
        assert forall|r1: X64Reg, r2: X64Reg|
            #[trigger] self.bindings().contains_key(r1) && #[trigger] self.bindings().contains_key(
                r2,
            ) && self.bindings()[r1] == self.bindings()[r2] implies r1 == r2 by {
            lemma_value_key(self.bindings()[r1]);
            assert(c[r1.code()] == c[r2.code()]);
            lemma_reg_code(r1);
            lemma_reg_code(r2);
        }
    }

    /// An allocator with no bindings and an empty frame but for the return
    /// address.
    pub fn new() -> (a: Self)
        ensures
            a.wf(),
            a.bindings() == Map::<X64Reg, JITValue>::empty(),
            a.spec_stack().0 == 0,
            a.spec_emulator_regs() == Seq::<EmuReg>::empty(),
            a.spec_emulator_ptrs().0 == 0,
            a.spec_native_ptrs().0 == 8,
    {
        let mappings = bimap_new();
        let stack = StackOffset(0);
        let emulator_regs = Vec::new();
        let emulator_ptrs = StackOffset(0);
        let native_ptrs = StackOffset(8);
        let a = Allocator { mappings, stack, emulator_regs, emulator_ptrs, native_ptrs };
        assert(a.bindings() =~= Map::<X64Reg, JITValue>::empty());
        a
    }

    /// The key that stands for `v` in the register map.
    fn value_key(v: JITValue) -> (k: ValueKey)
        ensures
            k == key_of(v),
    {
        match v {
            JITValue::EmuReg(r) => (0, r.name.0, r.position.0, r.size.0, 0),
            JITValue::Variable(x) => (1, 0, x.position.0, x.size.0, 0),
            JITValue::Flags(i) => (2, 0, 0, 0, i.0),
            JITValue::DelayedWrite(r, i) => (3, r.name.0, r.position.0, r.size.0, i.0),
        }
    }

    /// The value that the key `k` stands for.
    fn key_value(k: ValueKey) -> (v: JITValue)
        ensures
            v == value_of(k),
    {
        if k.0 == 0 {
            JITValue::EmuReg(
                EmuReg { name: EmuRegName(k.1), position: StackOffset(k.2), size: StackOffset(k.3) },
            )
        } else if k.0 == 1 {
            JITValue::Variable(Variable { position: StackOffset(k.2), size: StackOffset(k.3) })
        } else if k.0 == 2 {
            JITValue::Flags(Idx(k.4))
        } else {
            JITValue::DelayedWrite(
                EmuReg { name: EmuRegName(k.1), position: StackOffset(k.2), size: StackOffset(k.3) },
                Idx(k.4),
            )
        }
    }

    /// The register with encoding number `n`.
    fn reg_of_code(n: u8) -> (r: X64Reg)
        requires
            n < 16,
        ensures
            r == X64Reg::from_code(n),
            r.code() == n,
    {
        if n == 0 { X64Reg::RAX }
        else if n == 1 { X64Reg::RCX }
        else if n == 2 { X64Reg::RDX }
        else if n == 3 { X64Reg::RBX }
        else if n == 4 { X64Reg::RSP }
        else if n == 5 { X64Reg::RBP }
        else if n == 6 { X64Reg::RSI }
        else if n == 7 { X64Reg::RDI }
        else if n == 8 { X64Reg::R8 }
        else if n == 9 { X64Reg::R9 }
        else if n == 10 { X64Reg::R10 }
        else if n == 11 { X64Reg::R11 }
        else if n == 12 { X64Reg::R12 }
        else if n == 13 { X64Reg::R13 }
        else if n == 14 { X64Reg::R14 }
        else { X64Reg::R15 }
    }

    /// The value bound to `reg`, if any.
    pub(crate) fn bound_value(&self, reg: X64Reg) -> (v: Option<JITValue>)
        requires
            self.wf(),
        ensures
            v == (if self.bindings().contains_key(reg) {
                Some(self.bindings()[reg])
            } else {
                None
            }),
    {
        match bimap_get_by_left(&self.mappings, reg.number()) {
            Some(k) => Some(Allocator::key_value(k)),
            None => None,
        }
    }

    /// The register that `value` is bound to, if any.
    pub(crate) fn bound_reg(&self, value: JITValue) -> (r: Option<X64Reg>)
        requires
            self.wf(),
        ensures
            match r {
                Some(reg) => self.bindings().contains_key(reg) && self.bindings()[reg] == value,
                None => !is_bound(self.bindings(), value),
            },
    {
        let key = Allocator::value_key(value);
        match bimap_get_by_right(&self.mappings, key) {
            Some(n) => {
                assert(bimap_contents(self.mappings).contains_key(n));
                let reg = Allocator::reg_of_code(n);
                proof {
                    lemma_value_key(value);
                }
                Some(reg)
            },
            None => {
                proof {
                    lemma_value_key(value);
                    if is_bound(self.bindings(), value) {
                        let r = choose|r: X64Reg|
                            #[trigger] self.bindings().contains_key(r) && self.bindings()[r] == value;
                        let c = bimap_contents(self.mappings);
                        assert(c.contains_key(r.code()));
                        assert(key_of(value_of(c[r.code()])) == c[r.code()]);
                    }
                }
                None
            },
        }
    }

    /// Binds `value` to `reg`, dropping `reg`'s earlier binding and any other
    /// register's binding to `value`.
    pub(crate) fn bind_raw(&mut self, reg: X64Reg, value: JITValue)
        requires
            old(self).wf(),
        ensures
            final(self).wf(),
            final(self).bindings() == bind_in(old(self).bindings(), reg, value),
            final(self).same_frame(*old(self)),
    {
        let key = Allocator::value_key(value);
        let ghost c0 = bimap_contents(self.mappings);
        bimap_insert(&mut self.mappings, reg.number(), key);
        proof {
            let c = bimap_contents(self.mappings);
            lemma_value_key(value);
            lemma_reg_code(reg);
            assert(c == without_right(c0, key).insert(reg.code(), key));
            assert forall|l: u8| #[trigger] c.contains_key(l) implies l < 16 && key_of(value_of(c[l]))
                == c[l] by {
                if l != reg.code() {
                    assert(c0.contains_key(l));
                }
            }
            let b0 = old(self).bindings();
            let target = bind_in(b0, reg, value);
            assert forall|x: X64Reg| #[trigger] self.bindings().contains_key(x) == target.contains_key(
                x,
            ) by {
                lemma_reg_code(x);
                if x != reg && c0.contains_key(x.code()) {
                    lemma_value_key(value_of(c0[x.code()]));
                }
            }
            assert forall|x: X64Reg| #[trigger] self.bindings().contains_key(x) implies self.bindings()[x]
                == target[x] by {
                lemma_reg_code(x);
            }
            assert(self.bindings() =~= target);
        }
    }

    /// Drops the binding of `reg`, if any.
    pub(crate) fn unbind_raw(&mut self, reg: X64Reg)
        requires
            old(self).wf(),
        ensures
            final(self).wf(),
            final(self).bindings() == old(self).bindings().remove(reg),
            final(self).same_frame(*old(self)),
    {
        let ghost c0 = bimap_contents(self.mappings);
        bimap_remove_by_left(&mut self.mappings, reg.number());
        proof {
            let c = bimap_contents(self.mappings);
            lemma_reg_code(reg);
            assert forall|l: u8| #[trigger] c.contains_key(l) implies l < 16 && key_of(value_of(c[l]))
                == c[l] by {
                assert(c0.contains_key(l));
            }
            assert forall|x: X64Reg| #[trigger] self.bindings().contains_key(x)
                == old(self).bindings().remove(reg).contains_key(x) by {
                lemma_reg_code(x);
            }
            assert(self.bindings() =~= old(self).bindings().remove(reg));
        }
    }
}

impl Allocator {
    /// The size of the whole frame: local variables, emulator registers,
    /// emulator pointers and native words.
    pub fn full_stack(&self) -> (r: StackOffset)
        requires
            self.frame_fits(),
        ensures
            r.0 == self.spec_full_stack(),
    {
        let mut regs_size = StackOffset(0);
        let mut i: usize = 0;
        while i < self.emulator_regs.len()
            invariant
                0 <= i <= self.emulator_regs.len(),
                self.frame_fits(),
                regs_size.0 == emu_size_sum(self.emulator_regs@.take(i as int)),
            decreases self.emulator_regs.len() - i,
        {
            assert(self.emulator_regs@.take(i + 1).drop_last() == self.emulator_regs@.take(i as int));
            assert(i32::MIN <= emu_size_sum(self.emulator_regs@.take(i + 1)) <= i32::MAX);
            regs_size = regs_size + self.emulator_regs[i].size;
            i = i + 1;
        }
        assert(self.emulator_regs@.take(self.emulator_regs.len() as int) == self.emulator_regs@);
        self.stack() + regs_size + self.emulator_ptrs() + self.native_ptrs()
    }

    /// The offset from `%rsp` of an emulator register's home.
    pub fn reg_position(&self, reg: &EmuReg) -> (r: StackOffset)
        requires
            self.frame_fits(),
            i32::MIN <= self.spec_full_stack() - reg.position.0 <= i32::MAX,
        ensures
            r.0 == self.spec_full_stack() - reg.position.0,
    {
        self.full_stack() - reg.position
    }

    /// The offset from `%rsp` of a value's home. Saved flags and delayed
    /// writes have none.
    pub fn value_position(&self, value: &JITValue) -> (r: StackOffset)
        requires
            self.frame_fits(),
            value.has_home(),
            i32::MIN <= self.spec_full_stack() - value.spec_position().0 <= i32::MAX,
        ensures
            r.0 == self.spec_full_stack() - value.spec_position().0,
    {
        match value {
            JITValue::EmuReg(reg) => self.full_stack() - reg.position,
            JITValue::Variable(var) => self.full_stack() - var.position,
            _ => {
                proof {
                    assert(false);
                }
                StackOffset(0)
            },
        }
    }

    /// The offset from `%rsp` of the `idx`-th emulator pointer.
    pub fn ptr_position(&self, idx: usize) -> (r: StackOffset)
        requires
            self.frame_fits(),
            idx * 8 <= i32::MAX,
            i32::MIN <= self.spec_full_stack() - self.spec_native_ptrs().0 <= i32::MAX,
            i32::MIN <= self.spec_full_stack() - self.spec_native_ptrs().0 - self.spec_emulator_ptrs().0
                <= i32::MAX,
            i32::MIN <= self.spec_full_stack() - self.spec_native_ptrs().0 - self.spec_emulator_ptrs().0
                + idx * 8 <= i32::MAX,
        ensures
            r.0 == self.spec_full_stack() - self.spec_native_ptrs().0 - self.spec_emulator_ptrs().0 + idx
                * 8,
    {
        self.full_stack() - self.native_ptrs() - self.emulator_ptrs() + StackOffset(
            idx as StackOffsetType * 8,
        )
    }

    /// The bytes of local variables on the stack.
    pub fn stack(&self) -> (r: StackOffset)
        ensures
            r == self.spec_stack(),
    {
        self.stack
    }

    /// The bytes of local variables on the stack, for update.
    pub fn stack_mut(&mut self) -> (r: &mut StackOffset)
        ensures
            *r == old(self).spec_stack(),
            final(self).spec_stack() == *final(r),
            final(self).bindings() == old(self).bindings(),
            final(self).spec_emulator_regs() == old(self).spec_emulator_regs(),
            final(self).spec_emulator_ptrs() == old(self).spec_emulator_ptrs(),
            final(self).spec_native_ptrs() == old(self).spec_native_ptrs(),
            final(self).wf() == old(self).wf(),
    {
        &mut self.stack
    }

    /// The emulator registers kept on the stack.
    pub fn emulator_regs(&self) -> (r: &Vec<EmuReg>)
        ensures
            r@ == self.spec_emulator_regs(),
    {
        &self.emulator_regs
    }

    /// The emulator registers kept on the stack, for update.
    pub fn emulator_regs_mut(&mut self) -> (r: &mut Vec<EmuReg>)
        ensures
            r@ == old(self).spec_emulator_regs(),
            final(self).spec_emulator_regs() == final(r)@,
            final(self).bindings() == old(self).bindings(),
            final(self).spec_stack() == old(self).spec_stack(),
            final(self).spec_emulator_ptrs() == old(self).spec_emulator_ptrs(),
            final(self).spec_native_ptrs() == old(self).spec_native_ptrs(),
            final(self).wf() == old(self).wf(),
    {
        &mut self.emulator_regs
    }

    /// The bytes of pushed emulator pointers.
    pub fn emulator_ptrs(&self) -> (r: StackOffset)
        ensures
            r == self.spec_emulator_ptrs(),
    {
        self.emulator_ptrs
    }

    /// The bytes of pushed emulator pointers, for update.
    pub fn emulator_ptrs_mut(&mut self) -> (r: &mut StackOffset)
        ensures
            *r == old(self).spec_emulator_ptrs(),
            final(self).spec_emulator_ptrs() == *final(r),
            final(self).bindings() == old(self).bindings(),
            final(self).spec_stack() == old(self).spec_stack(),
            final(self).spec_emulator_regs() == old(self).spec_emulator_regs(),
            final(self).spec_native_ptrs() == old(self).spec_native_ptrs(),
            final(self).wf() == old(self).wf(),
    {
        &mut self.emulator_ptrs
    }

    /// The bytes pushed on entry.
    pub fn native_ptrs(&self) -> (r: StackOffset)
        ensures
            r == self.spec_native_ptrs(),
    {
        self.native_ptrs
    }

    /// The bytes pushed on entry, for update.
    pub fn native_ptrs_mut(&mut self) -> (r: &mut StackOffset)
        ensures
            *r == old(self).spec_native_ptrs(),
            final(self).spec_native_ptrs() == *final(r),
            final(self).bindings() == old(self).bindings(),
            final(self).spec_stack() == old(self).spec_stack(),
            final(self).spec_emulator_regs() == old(self).spec_emulator_regs(),
            final(self).spec_emulator_ptrs() == old(self).spec_emulator_ptrs(),
            final(self).wf() == old(self).wf(),
    {
        &mut self.native_ptrs
    }
}

impl Allocator {
    /// Every binding, once each, in the order in which the register map
    /// hands them out.
    pub(crate) fn binding_pairs(&self) -> (pairs: Vec<(X64Reg, JITValue)>)
        requires
            self.wf(),
        ensures
            pairs@.no_duplicates(),
            forall|i: int|
                0 <= i < pairs.len() ==> self.bindings().contains_key((#[trigger] pairs@[i]).0)
                    && self.bindings()[pairs@[i].0] == pairs@[i].1,
            forall|r: X64Reg|
                #[trigger] self.bindings().contains_key(r) ==> pairs@.contains((r, self.bindings()[r])),
    {
        let raw = bimap_pairs(&self.mappings);
        let ghost c = bimap_contents(self.mappings);
        let mut pairs: Vec<(X64Reg, JITValue)> = Vec::new();
        let mut i: usize = 0;
        while i < raw.len()
            invariant
                0 <= i <= raw.len(),
                self.wf(),
                c == bimap_contents(self.mappings),
                raw@.no_duplicates(),
                forall|j: int|
                    0 <= j < raw.len() ==> c.contains_key((#[trigger] raw@[j]).0) && c[raw@[j].0]
                        == raw@[j].1,
                pairs.len() == i,
                forall|j: int|
                    0 <= j < i ==> (#[trigger] pairs@[j]).0.code() == raw@[j].0 && pairs@[j].1
                        == value_of(raw@[j].1),
            decreases raw.len() - i,
        {
            let (n, k) = raw[i];
            assert(c.contains_key(raw@[i as int].0));
            let reg = Allocator::reg_of_code(n);
            pairs.push((reg, Allocator::key_value(k)));
            i = i + 1;
        }
        proof {
            assert forall|i: int| 0 <= i < pairs.len() implies self.bindings().contains_key(
                (#[trigger] pairs@[i]).0,
            ) && self.bindings()[pairs@[i].0] == pairs@[i].1 by {
                assert(c.contains_key(raw@[i].0));
            }
            assert forall|a: int, b: int|
                0 <= a < pairs.len() && 0 <= b < pairs.len() && a != b implies pairs@[a] != pairs@[b] by {
                if pairs@[a] == pairs@[b] {
                    assert(raw@[a].0 == raw@[b].0);
                    assert(c[raw@[a].0] == raw@[a].1);
                    assert(raw@[a] == raw@[b]);
                }
            }
            assert forall|r: X64Reg| #[trigger] self.bindings().contains_key(r) implies pairs@.contains(
                (r, self.bindings()[r]),
            ) by {
                lemma_reg_code(r);
                assert(c.contains_key(r.code()));
                let j = choose|j: int| 0 <= j < raw.len() && raw@[j] == (r.code(), c[r.code()]);
                assert(pairs@[j].0.code() == r.code());
                lemma_reg_code(pairs@[j].0);
                assert(pairs@[j] == (r, self.bindings()[r]));
            }
        }
        pairs
    }

    /// Drops every binding of an emulator register.
    pub(crate) fn retain_non_emu(&mut self)
        requires
            old(self).wf(),
        ensures
            final(self).wf(),
            final(self).same_frame(*old(self)),
            final(self).bindings() == Map::new(
                |x: X64Reg| old(self).bindings().contains_key(x) && !(old(self).bindings()[x] is EmuReg),
                |x: X64Reg| old(self).bindings()[x],
            ),
    {
        let ghost c0 = bimap_contents(self.mappings);
        bimap_retain_non_emu(&mut self.mappings);
        proof {
            let c = bimap_contents(self.mappings);
            assert(c == without_emu_regs(c0));
            assert forall|l: u8| #[trigger] c.contains_key(l) implies l < 16 && key_of(value_of(c[l]))
                == c[l] by {
                assert(c0.contains_key(l));
            }
            let target = Map::new(
                |x: X64Reg| old(self).bindings().contains_key(x) && !(old(self).bindings()[x] is EmuReg),
                |x: X64Reg| old(self).bindings()[x],
            );
            assert forall|x: X64Reg| #[trigger] self.bindings().contains_key(x) == target.contains_key(
                x,
            ) by {
                lemma_reg_code(x);
                if c0.contains_key(x.code()) {
                    assert(key_of(value_of(c0[x.code()])) == c0[x.code()]);
                }
            }
            assert(self.bindings() =~= target);
        }
    }
}

} // verus!
