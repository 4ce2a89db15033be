//! Creating the assembler and its labels, emitting register transfers, and
//! patching label displacements.

use vstd::prelude::*;
use crate::assembler::Assembler;
use crate::assembler::assoc_map;
use crate::assembler::in_some_use;
use crate::assembler::label_size_ok;
use crate::assembler::rel_bytes;
use crate::assembler::mov::enc_movl_mr_offset;
use crate::assembler::mov::enc_movl_rm_offset;
use crate::assembler::mov::enc_movq_mr_offset;
use crate::assembler::mov::enc_movq_rm_offset;
use crate::assembler::xchg::enc_xchgq_rr;
use crate::Direction;
use crate::GenericValue;
use crate::JITValue;
use crate::Label;
use crate::StackOffset;
use crate::StackOffsetType;
use crate::Transfer;
use crate::X64Reg;

verus! {

/// The displacement from the end of a use of a label to the label's
/// definition: what the use's placeholder is replaced with.
pub open spec fn rel_of(u: (StackOffset, Label), defs: Map<Label, StackOffset>) -> i32 {
    (defs[u.1].0 - u.0.0 - u.1.spec_size()) as i32
}

/// The offset from `%rsp` of a value's home, when the stack holds `stack`
/// bytes below the bottom of the frame.
pub open spec fn home_offset(stack: StackOffset, v: JITValue) -> int {
    stack.0 - v.spec_position().0
}

/// Whether a transfer can be emitted: a value transfer moves a value with
/// a home on the stack, of four or eight bytes, whose offset from `%rsp`
/// is an `i32`; a transfer between two registers always can.
pub open spec fn transfer_ok(t: Transfer, stack: StackOffset) -> bool {
    match t.spec_other() {
        GenericValue::JITValue(v) => {
            &&& v.has_home()
            &&& (v.spec_size().0 == 4 || v.spec_size().0 == 8)
            &&& i32::MIN <= home_offset(stack, v) <= i32::MAX
        },
        GenericValue::X64Reg(_) => true,
    }
}

/// The code for one transfer: a load into the register (`ToReg`) or a store
/// from it (`FromReg`) of the value's home at `%rsp` plus its offset, as a
/// `movl` or `movq` by the value's size; between two registers, an exchange.
pub open spec fn enc_transfer(t: Transfer, stack: StackOffset) -> Seq<u8> {
    match t.spec_other() {
        GenericValue::JITValue(v) => {
            let offset = home_offset(stack, v) as i32;
            if v.spec_size().0 == 4 {
                if t.spec_dir() == Direction::ToReg {
                    enc_movl_mr_offset(X64Reg::RSP, t.spec_reg(), offset)
                } else {
                    enc_movl_rm_offset(t.spec_reg(), X64Reg::RSP, offset)
                }
            } else {
                if t.spec_dir() == Direction::ToReg {
                    enc_movq_mr_offset(X64Reg::RSP, t.spec_reg(), offset)
                } else {
                    enc_movq_rm_offset(t.spec_reg(), X64Reg::RSP, offset)
                }
            }
        },
        GenericValue::X64Reg(other) => enc_xchgq_rr(t.spec_reg(), other),
    }
}

/// The code for a sequence of transfers, one after the other.
pub open spec fn enc_transfers(ts: Seq<Transfer>, stack: StackOffset) -> Seq<u8>
    decreases ts.len(),
{
    if ts.len() == 0 {
        seq![]
    } else {
        enc_transfers(ts.drop_last(), stack) + enc_transfer(ts.last(), stack)
    }
}

/// Whether byte `k` lies in the placeholder of one of the first `n` uses.
pub open spec fn covered_by(uses: Seq<(StackOffset, Label)>, n: int, k: int) -> bool {
    exists|j: int|
        0 <= j < n && uses[j].0.0 <= k < uses[j].0.0 + (#[trigger] uses[j]).1.spec_size()
}

/// Whether `new` is `old` with the placeholder of each of the first `n`
/// uses replaced by its displacement, and every other byte unchanged.
pub open spec fn patched(
    new: Seq<u8>,
    old: Seq<u8>,
    uses: Seq<(StackOffset, Label)>,
    defs: Map<Label, StackOffset>,
    n: int,
) -> bool {
    &&& new.len() == old.len()
    &&& forall|j: int|
        0 <= j < n ==> new.subrange(
            uses[j].0.0 as int,
            uses[j].0.0 + uses[j].1.spec_size(),
        ) == rel_bytes(rel_of(#[trigger] uses[j], defs), uses[j].1.spec_size())
    &&& forall|k: int| 0 <= k < old.len() && !covered_by(uses, n, k) ==> new[k] == old[k]
}

proof fn lemma_assoc_suffix(s: Seq<(Label, StackOffset)>, i: int, l: Label)
    requires
        0 <= i <= s.len(),
        forall|k: int| i <= k < s.len() ==> (#[trigger] s[k]).0 != l,
    ensures
        assoc_map(s).contains_key(l) == assoc_map(s.take(i)).contains_key(l),
        assoc_map(s).contains_key(l) ==> assoc_map(s)[l] == assoc_map(s.take(i))[l],
    decreases s.len() - i,
{
    if i < s.len() {
        assert(s.drop_last().len() == s.len() - 1);
        assert(s.last() == s[s.len() - 1]);
        assert forall|k: int| i <= k < s.drop_last().len() implies (#[trigger] s.drop_last()[k]).0
            != l by {
            assert(s.drop_last()[k] == s[k]);
        }
        lemma_assoc_suffix(s.drop_last(), i, l);
        assert(s.drop_last().take(i) == s.take(i));
    } else {
        assert(s.take(i) == s);
    }
}

/// A label handed out by `new_label` or `new_long_label` differs from every
/// label handed out before it.
pub proof fn law_fresh_label(before: Assembler, after: Assembler, fresh: Label, earlier: Label)
    requires
        after.counted(before),
        fresh.spec_id() == before.label_count(),
        earlier.spec_id() < before.label_count(),
    ensures
        fresh != earlier,
{
}

impl Assembler {
    /// An empty assembler: no code, no labels.
    pub fn new() -> (a: Self)
        ensures
            a.bytes() == Seq::<u8>::empty(),
            a.label_count() == 0,
            a.uses() == Seq::<(StackOffset, Label)>::empty(),
            a.defs() == Map::<Label, StackOffset>::empty(),
            a.wf(),
    {
        let buffer = Vec::new();
        let label_counter: usize = 0;
        let labels_used = Vec::new();
        let labels_defined = Vec::new();
        Assembler { buffer, label_counter, labels_used, labels_defined }
    }

    /// `self` is `old` with one more label handed out and nothing else
    /// changed.
    pub open spec fn counted(self, old: Assembler) -> bool {
        &&& self.bytes() == old.bytes()
        &&& self.label_count() == old.label_count() + 1
        &&& self.uses() == old.uses()
        &&& self.defs() == old.defs()
        &&& self.wf()
    }

    /// A fresh label whose displacement is one byte wide.
    pub fn new_label(&mut self) -> (label: Label)
        requires
            old(self).wf(),
            old(self).label_count() < usize::MAX,
        ensures
            final(self).counted(*old(self)),
            label.spec_id() == old(self).label_count(),
            label.spec_size() == 1,
    {
        let label = Label { id: self.label_counter, size: StackOffset(1) };
        self.label_counter = self.label_counter + 1;
        label
    }

    /// A fresh label whose displacement is four bytes wide.
    pub fn new_long_label(&mut self) -> (label: Label)
        requires
            old(self).wf(),
            old(self).label_count() < usize::MAX,
        ensures
            final(self).counted(*old(self)),
            label.spec_id() == old(self).label_count(),
            label.spec_size() == 4,
    {
        let label = Label { id: self.label_counter, size: StackOffset(4) };
        self.label_counter = self.label_counter + 1;
        label
    }

    /// Makes `label` point at the end of the code emitted so far; a later
    /// definition of the same label takes the place of an earlier one.
    pub fn define_label(&mut self, label: Label)
        requires
            old(self).wf(),
            old(self).bytes().len() <= i32::MAX,
        ensures
            final(self).bytes() == old(self).bytes(),
            final(self).label_count() == old(self).label_count(),
            final(self).uses() == old(self).uses(),
            final(self).defs() == old(self).defs().insert(
                label,
                StackOffset(old(self).bytes().len() as i32),
            ),
            final(self).wf(),
    {
        let position = StackOffset(self.buffer.len() as StackOffsetType);
        self.labels_defined.push((label, position));
        assert(self.labels_defined@.drop_last() == old(self).labels_defined@);
        assert forall|l: Label| #[trigger] self.defs().contains_key(l) implies 0 <= self.defs()[l].0
            <= self.bytes().len() by {
            if l != label {
                assert(old(self).defs().contains_key(l));
            } else {
                assert(self.defs()[l] == position);
            }
        }
        assert(self.uses() == old(self).uses());
        assert(self.bytes() == old(self).bytes());
        assert forall|i: int| 0 <= i < self.uses().len() implies {
            let u = #[trigger] self.uses()[i];
            &&& label_size_ok(u.1)
            &&& 0 <= u.0.0
            &&& u.0.0 + u.1.spec_size() <= self.bytes().len()
            &&& u.0.0 + u.1.spec_size() <= i32::MAX
        } by {
            assert(old(self).uses()[i] == self.uses()[i]);
        }
    }

    /// A fresh one-byte label, defined at the end of the code emitted so far.
    pub fn new_defined_label(&mut self) -> (label: Label)
        requires
            old(self).wf(),
            old(self).label_count() < usize::MAX,
            old(self).bytes().len() <= i32::MAX,
        ensures
            final(self).bytes() == old(self).bytes(),
            final(self).label_count() == old(self).label_count() + 1,
            final(self).uses() == old(self).uses(),
            final(self).defs() == old(self).defs().insert(
                label,
                StackOffset(old(self).bytes().len() as i32),
            ),
            final(self).wf(),
            label.spec_id() == old(self).label_count(),
            label.spec_size() == 1,
    {
        let label = self.new_label();
        self.define_label(label);
        label
    }

    /// Whether every label used so far is defined.
    pub fn all_labels_defined(&self) -> (b: bool)
        ensures
            b == (forall|i: int|
                0 <= i < self.uses().len() ==> self.defs().contains_key(#[trigger] self.uses()[i].1)),
    {
        let mut i: usize = 0;
        while i < self.labels_used.len()
            invariant
                0 <= i <= self.labels_used.len(),
                self.uses() == self.labels_used@,
                forall|j: int| 0 <= j < i ==> self.defs().contains_key(#[trigger] self.uses()[j].1),
            decreases self.labels_used.len() - i,
        {
            let (_, label) = self.labels_used[i];
            if self.lookup_def(label).is_none() {
                return false;
            }
            i = i + 1;
        }
        true
    }

    /// Where `label` is defined, if it is.
    fn lookup_def(&self, label: Label) -> (r: Option<StackOffset>)
        ensures
            r == (if self.defs().contains_key(label) {
                Some(self.defs()[label])
            } else {
                None
            }),
    {
        let ghost s = self.labels_defined@;
        let mut i = self.labels_defined.len();
        while i > 0
            invariant
                0 <= i <= s.len(),
                s == self.labels_defined@,
                forall|k: int| i <= k < s.len() ==> (#[trigger] s[k]).0 != label,
            decreases i,
        {
            let entry = self.labels_defined[i - 1];
            if entry.0 == label {
                proof {
                    lemma_assoc_suffix(s, i as int, label);
                    assert(s.take(i as int).drop_last() == s.take(i - 1));
                    assert(s.take(i as int).last() == entry);
                }
                return Some(entry.1);
            }
            i = i - 1;
        }
        proof {
            lemma_assoc_suffix(s, 0, label);
            assert(s.take(0) == Seq::<(Label, StackOffset)>::empty());
        }
        None
    }

    /// Emits the loads, stores and exchanges that `transfers` call for, in
    /// order; `stack` is the current depth of the stack, from which each
    /// value's offset from `%rsp` follows.
    pub fn emit_transfers(&mut self, transfers: Vec<Transfer>, stack: StackOffset)
        requires
            old(self).wf(),
            forall|i: int| 0 <= i < transfers.len() ==> transfer_ok(#[trigger] transfers@[i], stack),
        ensures
            final(self).appended(*old(self), enc_transfers(transfers@, stack)),
    {
        let mut i: usize = 0;
        while i < transfers.len()
            invariant
                0 <= i <= transfers.len(),
                forall|i: int|
                    0 <= i < transfers.len() ==> transfer_ok(#[trigger] transfers@[i], stack),
                self.appended(*old(self), enc_transfers(transfers@.take(i as int), stack)),
            decreases transfers.len() - i,
        {
            let t = transfers[i];
            let ghost before = *self;
            assert(transfer_ok(transfers@[i as int], stack));
            match t.other {
                GenericValue::JITValue(value) => {
                    let size = value.size();
                    let offset = stack - value.position();
                    if size.0 == 4 {
                        match t.dir {
                            Direction::ToReg => {
                                self.emit_movl_mr_offset(X64Reg::RSP, t.reg, offset);
                            },
                            Direction::FromReg => {
                                self.emit_movl_rm_offset(t.reg, X64Reg::RSP, offset);
                            },
                        }
                    } else {
                        match t.dir {
                            Direction::ToReg => {
                                self.emit_movq_mr_offset(X64Reg::RSP, t.reg, offset);
                            },
                            Direction::FromReg => {
                                self.emit_movq_rm_offset(t.reg, X64Reg::RSP, offset);
                            },
                        }
                    }
                },
                GenericValue::X64Reg(other) => {
                    self.emit_xchgq_rr(t.reg, other);
                },
            }
            proof {
                let ts = transfers@.take(i + 1);
                assert(ts.drop_last() == transfers@.take(i as int));
                assert(ts.last() == t);
                assert(self.bytes() =~= old(self).bytes() + enc_transfers(ts, stack));
            }
            i = i + 1;
        }
        assert(transfers@.take(transfers.len() as int) == transfers@);
    }

    /// Replaces the placeholder of every use of a label with the displacement
    /// from the end of the placeholder to the label's definition: the low
    /// byte for a short label, four little-endian bytes for a long one. Every
    /// used label must be defined.
    pub fn resolve_label_addresses(&mut self)
        requires
            old(self).wf(),
            forall|i: int|
                0 <= i < old(self).uses().len() ==> old(self).defs().contains_key(
                    (#[trigger] old(self).uses()[i]).1,
                ),
        ensures
            patched(
                final(self).bytes(),
                old(self).bytes(),
                old(self).uses(),
                old(self).defs(),
                old(self).uses().len() as int,
            ),
            forall|k: int|
                0 <= k < old(self).bytes().len() && !in_some_use(old(self).uses(), k)
                    ==> final(self).bytes()[k] == old(self).bytes()[k],
            final(self).label_count() == old(self).label_count(),
            final(self).uses() == old(self).uses(),
            final(self).defs() == old(self).defs(),
            final(self).wf(),
    {
        let ghost uses = self.uses();
        let ghost defs = self.defs();
        let ghost orig = self.bytes();
        let mut i: usize = 0;
        while i < self.labels_used.len()
            invariant
                0 <= i <= uses.len(),
                uses == self.uses(),
                defs == self.defs(),
                self.label_count() == old(self).label_count(),
                self.wf(),
                old(self).wf(),
                uses == old(self).uses(),
                defs == old(self).defs(),
                orig == old(self).bytes(),
                forall|j: int| 0 <= j < uses.len() ==> defs.contains_key((#[trigger] uses[j]).1),
                patched(self.bytes(), orig, uses, defs, i as int),
            decreases uses.len() - i,
        {
            let (location, label) = self.labels_used[i as usize];
            let ghost u = uses[i as int];
            assert(u == (location, label));
            assert(defs.contains_key(uses[i as int].1));
            assert(label_size_ok(u.1) && 0 <= u.0.0 && u.0.0 + u.1.spec_size() <= orig.len());
            assert(u.0.0 + u.1.spec_size() <= i32::MAX);
            let def = match self.lookup_def(label) {
                Some(d) => d,
                None => {
                    proof {
                        assert(false);
                    }
                    StackOffset(0)
                },
            };
            assert(0 <= def.0 <= orig.len());
            assert(def.0 <= i32::MAX);
            let rel = def - location - label.size;
            let loc = location.0 as usize;
            let ghost before = self.bytes();
            if label.size.0 == 1 {
                self.buffer.set(loc, rel.0 as u8);
            } else {
                self.buffer.set(loc, (rel.0 & 0xff) as u8);
                self.buffer.set(loc + 1, ((rel.0 >> 8) & 0xff) as u8);
                self.buffer.set(loc + 2, ((rel.0 >> 16) & 0xff) as u8);
                self.buffer.set(loc + 3, ((rel.0 >> 24) & 0xff) as u8);
            }
            proof {
                let size = u.1.spec_size();
                assert(rel.0 == rel_of(u, defs));
                assert(self.bytes().subrange(u.0.0 as int, u.0.0 + size) =~= rel_bytes(
                    rel_of(u, defs),
                    size,
                ));
                assert forall|k: int| 0 <= k < orig.len() && !(u.0.0 <= k < u.0.0 + size) implies
                    self.bytes()[k] == before[k] by {}
                assert forall|j: int| 0 <= j < i + 1 implies self.bytes().subrange(
                    uses[j].0.0 as int,
                    uses[j].0.0 + uses[j].1.spec_size(),
                ) == rel_bytes(rel_of(#[trigger] uses[j], defs), uses[j].1.spec_size()) by {
                    if j < i {
                        let w = uses[j];
                        assert(w.0.0 + w.1.spec_size() <= u.0.0);
                        assert(before.subrange(w.0.0 as int, w.0.0 + w.1.spec_size()) == rel_bytes(
                            rel_of(w, defs),
                            w.1.spec_size(),
                        ));
                        assert(self.bytes().subrange(w.0.0 as int, w.0.0 + w.1.spec_size())
                            =~= before.subrange(w.0.0 as int, w.0.0 + w.1.spec_size()));
                    }
                }
                assert forall|k: int|
                    0 <= k < orig.len() && !covered_by(uses, i + 1, k) implies self.bytes()[k]
                    == orig[k] by {
                    if covered_by(uses, i as int, k) {
                        let j = choose|j: int|
                            0 <= j < i && uses[j].0.0 <= k < uses[j].0.0 + (#[trigger] uses[j]).1.spec_size();
                        assert(covered_by(uses, i + 1, k));
                    }
                    if u.0.0 <= k < u.0.0 + size {
                        assert(covered_by(uses, i + 1, k));
                    }
                }
                assert forall|l: Label| #[trigger] self.defs().contains_key(l) implies 0
                    <= self.defs()[l].0 <= self.bytes().len() by {}
                assert forall|j: int| 0 <= j < self.uses().len() implies {
                    let w = #[trigger] self.uses()[j];
                    &&& label_size_ok(w.1)
                    &&& 0 <= w.0.0
                    &&& w.0.0 + w.1.spec_size() <= self.bytes().len()
                    &&& w.0.0 + w.1.spec_size() <= i32::MAX
                } by {
                    assert(uses[j] == self.uses()[j]);
                }
            }
            i = i + 1;
        }
        assert forall|k: int|
            0 <= k < orig.len() && !in_some_use(uses, k) implies self.bytes()[k] == orig[k] by {
            if covered_by(uses, uses.len() as int, k) {
                let j = choose|j: int|
                    0 <= j < uses.len() && uses[j].0.0 <= k < uses[j].0.0 + (#[trigger] uses[j]).1.spec_size();
                assert(in_some_use(uses, k));
            }
        }
    }

    /// The code emitted so far, as it stands; the assembler is consumed.
    pub fn into_code(self) -> (code: Vec<u8>)
        ensures
            code@ == self.bytes(),
    {
        self.buffer
    }
}

} // verus!
