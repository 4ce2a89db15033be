//! The two queues that live in registers only: saved copies of the host
//! flags, and delayed writes waiting to be written to an emulator register.
//! Each entry carries its place in its queue.

use vstd::prelude::*;
use crate::allocator::bind_in;
use crate::allocator::injective;
use crate::allocator::is_bound;
use crate::allocator::registers::bind_moves;
use crate::allocator::registers::keep;
use crate::allocator::registers::lemma_keep;
use crate::allocator::registers::bind_steps;
use crate::allocator::registers::lemma_bind_multivalue_binds_all;
use crate::allocator::registers::load;
use crate::allocator::registers::spec_prioritized;
use crate::allocator::registers::spec_replacements;
use crate::allocator::registers::spec_unbound_values;
use crate::allocator::registers::spill;
use crate::allocator::registers::can_bind;
use crate::allocator::Allocator;
use crate::recompiler::reg_of;
use crate::Direction;
use crate::EmuReg;
use crate::GenericValue;
use crate::Idx;
use crate::JITValue;
use crate::MultiTransfer;
use crate::Transfer;
use crate::X64Reg;

verus! {

/// The place of `v` in the queue of delayed writes (`writes`) or of saved
/// flags (otherwise), if it is in that queue.
pub open spec fn queue_idx(v: JITValue, writes: bool) -> Option<usize> {
    match v {
        JITValue::Flags(i) => if writes {
            None
        } else {
            Some(i.0)
        },
        JITValue::DelayedWrite(_, i) => if writes {
            Some(i.0)
        } else {
            None
        },
        _ => None,
    }
}

/// Whether some register in `b` holds an entry of the queue at place `n`.
pub open spec fn in_queue(b: Map<X64Reg, JITValue>, writes: bool, n: usize) -> bool {
    exists|r: X64Reg| #[trigger] b.contains_key(r) && queue_idx(b[r], writes) == Some(n)
}

/// Whether no register in `b` holds an entry of the queue.
pub open spec fn queue_empty(b: Map<X64Reg, JITValue>, writes: bool) -> bool {
    forall|r: X64Reg| #[trigger] b.contains_key(r) ==> queue_idx(b[r], writes) is None
}

/// Whether `m` is the least place held in the queue.
pub open spec fn is_least(b: Map<X64Reg, JITValue>, writes: bool, m: usize) -> bool {
    &&& in_queue(b, writes, m)
    &&& forall|r: X64Reg|
        #[trigger] b.contains_key(r) && queue_idx(b[r], writes) is Some ==> m <= queue_idx(
            b[r],
            writes,
        )->0
}

/// Whether `m` is the greatest place held in the queue.
pub open spec fn is_greatest(b: Map<X64Reg, JITValue>, writes: bool, m: usize) -> bool {
    &&& in_queue(b, writes, m)
    &&& forall|r: X64Reg|
        #[trigger] b.contains_key(r) && queue_idx(b[r], writes) is Some ==> queue_idx(
            b[r],
            writes,
        )->0 <= m
}

/// The least place held in a queue that is not empty.
pub open spec fn least_place(b: Map<X64Reg, JITValue>, writes: bool) -> usize {
    choose|m: usize| is_least(b, writes, m)
}

/// The greatest place held in a queue that is not empty.
pub open spec fn greatest_place(b: Map<X64Reg, JITValue>, writes: bool) -> usize {
    choose|m: usize| is_greatest(b, writes, m)
}

/// Whether one more than every place held in the queue is a `usize`.
pub open spec fn queue_fits(b: Map<X64Reg, JITValue>, writes: bool) -> bool {
    forall|r: X64Reg|
        #[trigger] b.contains_key(r) && queue_idx(b[r], writes) is Some ==> queue_idx(
            b[r],
            writes,
        )->0 < usize::MAX
}

/// The first place of the queue: `0` when it is empty, else the least
/// place held.
pub open spec fn first_place(b: Map<X64Reg, JITValue>, writes: bool) -> usize {
    if queue_empty(b, writes) {
        0
    } else {
        least_place(b, writes)
    }
}

/// The place for new saved flags: `0` when there are none, else one past
/// the greatest place held.
pub open spec fn next_flag_place(b: Map<X64Reg, JITValue>) -> usize {
    if queue_empty(b, false) {
        0
    } else {
        (greatest_place(b, false) + 1) as usize
    }
}

/// The place for a new delayed write: `0` when there are none, else one
/// past the least place held.
pub open spec fn next_write_place(b: Map<X64Reg, JITValue>) -> usize {
    if queue_empty(b, true) {
        0
    } else {
        (least_place(b, true) + 1) as usize
    }
}

/// A place that is least in the queue is the least place.
pub proof fn lemma_least_place(b: Map<X64Reg, JITValue>, writes: bool, m: usize)
    requires
        is_least(b, writes, m),
    ensures
        least_place(b, writes) == m,
        !queue_empty(b, writes),
{
    let l = least_place(b, writes);
    assert(is_least(b, writes, l));
    let r1 = choose|r: X64Reg| #[trigger] b.contains_key(r) && queue_idx(b[r], writes) == Some(m);
    let r2 = choose|r: X64Reg| #[trigger] b.contains_key(r) && queue_idx(b[r], writes) == Some(l);
    assert(l <= m);
    assert(m <= l);
}

/// A place that is greatest in the queue is the greatest place.
pub proof fn lemma_greatest_place(b: Map<X64Reg, JITValue>, writes: bool, m: usize)
    requires
        is_greatest(b, writes, m),
    ensures
        greatest_place(b, writes) == m,
        !queue_empty(b, writes),
{
    let g = greatest_place(b, writes);
    assert(is_greatest(b, writes, g));
    let r1 = choose|r: X64Reg| #[trigger] b.contains_key(r) && queue_idx(b[r], writes) == Some(m);
    let r2 = choose|r: X64Reg| #[trigger] b.contains_key(r) && queue_idx(b[r], writes) == Some(g);
    assert(g <= m);
    assert(m <= g);
}

/// Whether register `r` holds an entry of the queue in `b`.
pub open spec fn holds_entry(b: Map<X64Reg, JITValue>, writes: bool, r: X64Reg) -> bool {
    b.contains_key(r) && queue_idx(b[r], writes) is Some
}

/// The least and greatest places held by the first `k` registers of
/// [`X64Reg::all_regs`], if any of them holds an entry.
pub open spec fn extremes_upto(b: Map<X64Reg, JITValue>, writes: bool, k: int) -> Option<(usize, usize)>
    decreases k,
{
    if k <= 0 {
        None
    } else {
        let rest = extremes_upto(b, writes, k - 1);
        let r = X64Reg::spec_all_regs()[k - 1];
        if holds_entry(b, writes, r) {
            let n = queue_idx(b[r], writes)->0;
            match rest {
                None => Some((n, n)),
                Some((lo, hi)) => Some(
                    (if n < lo {
                        n
                    } else {
                        lo
                    }, if n > hi {
                        n
                    } else {
                        hi
                    }),
                ),
            }
        } else {
            rest
        }
    }
}

proof fn lemma_extremes_upto(b: Map<X64Reg, JITValue>, writes: bool, k: int)
    requires
        0 <= k <= 16,
    ensures
        match extremes_upto(b, writes, k) {
            None => forall|j: int|
                0 <= j < k ==> !holds_entry(b, writes, #[trigger] X64Reg::spec_all_regs()[j]),
            Some((lo, hi)) => {
                &&& in_queue(b, writes, lo)
                &&& in_queue(b, writes, hi)
                &&& forall|j: int|
                    0 <= j < k && holds_entry(b, writes, #[trigger] X64Reg::spec_all_regs()[j]) ==> lo
                        <= queue_idx(b[X64Reg::spec_all_regs()[j]], writes)->0 <= hi
            },
        },
    decreases k,
{
    if k > 0 {
        lemma_extremes_upto(b, writes, k - 1);
        let r = X64Reg::spec_all_regs()[k - 1];
        if holds_entry(b, writes, r) {
            assert(b.contains_key(r) && queue_idx(b[r], writes) == Some(queue_idx(b[r], writes)->0));
        }
    }
}

/// A queue that is not empty has a least and a greatest place.
pub proof fn lemma_places_exist(b: Map<X64Reg, JITValue>, writes: bool)
    requires
        !queue_empty(b, writes),
    ensures
        is_least(b, writes, least_place(b, writes)),
        is_greatest(b, writes, greatest_place(b, writes)),
{
    let a = X64Reg::spec_all_regs();
    lemma_extremes_upto(b, writes, 16);
    let r0 = choose|r: X64Reg| #[trigger] b.contains_key(r) && !(queue_idx(b[r], writes) is None);
    lemma_all_regs_complete(r0);
    let j0 = choose|j: int| 0 <= j < a.len() && a[j] == r0;
    assert(holds_entry(b, writes, a[j0]));
    match extremes_upto(b, writes, 16) {
        None => {
            assert(false);
        },
        Some((lo, hi)) => {
            assert forall|r: X64Reg|
                #[trigger] b.contains_key(r) && queue_idx(b[r], writes) is Some implies lo <= queue_idx(
                    b[r],
                    writes,
                )->0 <= hi by {
                lemma_all_regs_complete(r);
                let j = choose|j: int| 0 <= j < a.len() && a[j] == r;
                assert(holds_entry(b, writes, a[j]));
            }
            assert(is_least(b, writes, lo));
            assert(is_greatest(b, writes, hi));
            lemma_least_place(b, writes, lo);
            lemma_greatest_place(b, writes, hi);
        },
    }
}

/// Saved flags come back first in, first out. Saving flags as `bind_flags`
/// does (in the first register in priority order, which holds no saved
/// flags) gives them a place after every place already held, so the flags
/// that `unbind_flags` restores next are the same as before, or, when no
/// flags were saved, the ones just saved, at place `0`.
pub proof fn law_flags_fifo(b: Map<X64Reg, JITValue>)
    requires
        spec_prioritized(b).len() > 0,
        queue_fits(b, false),
    ensures
        ({
            let v = JITValue::Flags(Idx(next_flag_place(b)));
            let nb = bind_in(b, spec_prioritized(b)[0], v);
            &&& forall|x: X64Reg|
                #[trigger] b.contains_key(x) && queue_idx(b[x], false) is Some ==> queue_idx(
                    b[x],
                    false,
                )->0 < next_flag_place(b)
            &&& !queue_empty(nb, false)
            &&& queue_empty(b, false) ==> next_flag_place(b) == 0 && first_place(nb, false) == 0
            &&& !queue_empty(b, false) ==> first_place(nb, false) == first_place(b, false)
        }),
{
    let pr = spec_prioritized(b);
    let r = pr[0];
    let n = next_flag_place(b);
    let v = JITValue::Flags(Idx(n));
    let nb = bind_in(b, r, v);
    lemma_keep(X64Reg::spec_free_regs(), |x: X64Reg| !b.contains_key(x));
    lemma_keep(X64Reg::spec_free_regs(), |x: X64Reg| b.contains_key(x) && b[x].has_home());
    assert(pr.contains(r));
    assert(!(b.contains_key(r) && b[r] is Flags)) by {
        let i = choose|i: int| 0 <= i < pr.len() && pr[i] == r;
        let av = crate::allocator::registers::spec_available(b);
        if i < av.len() {
            assert(av.contains(r));
        } else {
            assert(crate::allocator::registers::spec_spillable(b)[i - av.len()] == r);
            assert(crate::allocator::registers::spec_spillable(b).contains(r));
        }
    }
    assert(nb.contains_key(r) && queue_idx(nb[r], false) == Some(n));
    if queue_empty(b, false) {
        assert forall|x: X64Reg| #[trigger] nb.contains_key(x) && queue_idx(nb[x], false) is Some implies 0
            <= queue_idx(nb[x], false)->0 by {}
        assert(is_least(nb, false, 0));
        lemma_least_place(nb, false, 0);
    } else {
        lemma_places_exist(b, false);
        let m = first_place(b, false);
        let g = greatest_place(b, false);
        let xm = choose|x: X64Reg| #[trigger] b.contains_key(x) && queue_idx(b[x], false) == Some(m);
        assert(xm != r);
        assert(nb.contains_key(xm) && nb[xm] == b[xm]);
        assert forall|x: X64Reg| #[trigger] nb.contains_key(x) && queue_idx(nb[x], false) is Some implies m
            <= queue_idx(nb[x], false)->0 by {
            if x != r {
                assert(b.contains_key(x) && nb[x] == b[x]);
            }
        }
        assert(is_least(nb, false, m));
        lemma_least_place(nb, false, m);
    }
}

/// The delayed write that `v` stands for, if it is one: the emulator
/// register it is for.
pub open spec fn write_target(v: JITValue) -> EmuReg {
    match v {
        JITValue::DelayedWrite(e, _) => e,
        _ => EmuReg { name: crate::EmuRegName(0), position: crate::StackOffset(0), size: crate::StackOffset(0) },
    }
}

/// The registers that hold a delayed write, in the order of
/// [`X64Reg::all_regs`].
pub open spec fn write_regs(b: Map<X64Reg, JITValue>) -> Seq<X64Reg> {
    keep(X64Reg::spec_all_regs(), |r: X64Reg| b.contains_key(r) && b[r] is DelayedWrite)
}

/// Whether, from bindings `b`, processing the delayed write held in `x`
/// gives bindings `nb` and moves `moves`: `x` holds a write at the first
/// place of the queue; its emulator register is bound as `bind_value`
/// binds it, then `x` is unbound and its value moved into that register.
pub open spec fn processed(
    b: Map<X64Reg, JITValue>,
    x: X64Reg,
    nb: Map<X64Reg, JITValue>,
    moves: Seq<Transfer>,
) -> bool {
    let e = JITValue::EmuReg(write_target(b[x]));
    let un = spec_unbound_values(b, seq![e]);
    let repl = spec_replacements(b, seq![e]);
    let b1 = bind_steps(b, un, repl);
    &&& b.contains_key(x)
    &&& queue_idx(b[x], true) == Some(first_place(b, true))
    &&& nb == b1.remove(x)
    &&& moves == bind_moves(b, un, repl) + seq![
        Transfer { reg: x, other: GenericValue::X64Reg(reg_of(b1, e)), dir: Direction::FromReg },
    ]
}

/// Every register is one of [`X64Reg::all_regs`].
pub proof fn lemma_all_regs_complete(r: X64Reg)
    ensures
        X64Reg::spec_all_regs().contains(r),
{
    let a = X64Reg::spec_all_regs();
    match r {
        X64Reg::RAX => assert(a[0] == r),
        X64Reg::RCX => assert(a[1] == r),
        X64Reg::RBP => assert(a[2] == r),
        X64Reg::RBX => assert(a[3] == r),
        X64Reg::R8 => assert(a[4] == r),
        X64Reg::R9 => assert(a[5] == r),
        X64Reg::R10 => assert(a[6] == r),
        X64Reg::R11 => assert(a[7] == r),
        X64Reg::R12 => assert(a[8] == r),
        X64Reg::R13 => assert(a[9] == r),
        X64Reg::R14 => assert(a[10] == r),
        X64Reg::R15 => assert(a[11] == r),
        X64Reg::RSP => assert(a[12] == r),
        X64Reg::RDX => assert(a[13] == r),
        X64Reg::RSI => assert(a[14] == r),
        X64Reg::RDI => assert(a[15] == r),
    }
}

/// The place of `v` in the queue of delayed writes (`writes`) or of saved
/// flags, if it is in that queue.
fn queue_index(v: &JITValue, writes: bool) -> (r: Option<usize>)
    ensures
        r == queue_idx(*v, writes),
{
    match v {
        JITValue::Flags(i) => if writes {
            None
        } else {
            Some(i.0)
        },
        JITValue::DelayedWrite(_, i) => if writes {
            Some(i.0)
        } else {
            None
        },
        _ => None,
    }
}

impl Allocator {
    /// The least and the greatest place held in a queue, or nothing when
    /// the queue is empty.
    fn queue_bounds(&self, writes: bool) -> (r: Option<(usize, usize)>)
        requires
            self.wf(),
        ensures
            match r {
                None => queue_empty(self.bindings(), writes),
                Some((lo, hi)) => is_least(self.bindings(), writes, lo) && is_greatest(
                    self.bindings(),
                    writes,
                    hi,
                ),
            },
    {
        let ghost b = self.bindings();
        let pairs = self.binding_pairs();
        let mut found: Option<(usize, usize)> = None;
        let mut i: usize = 0;
        while i < pairs.len()
            invariant
                0 <= i <= pairs.len(),
                b == self.bindings(),
                forall|j: int|
                    0 <= j < pairs.len() ==> b.contains_key((#[trigger] pairs@[j]).0) && b[pairs@[j].0]
                        == pairs@[j].1,
                match found {
                    None => forall|j: int|
                        0 <= j < i ==> queue_idx((#[trigger] pairs@[j]).1, writes) is None,
                    Some((lo, hi)) => {
                        &&& in_queue(b, writes, lo)
                        &&& in_queue(b, writes, hi)
                        &&& forall|j: int|
                            0 <= j < i && queue_idx((#[trigger] pairs@[j]).1, writes) is Some ==> lo
                                <= queue_idx(pairs@[j].1, writes)->0 <= hi
                    },
                },
            decreases pairs.len() - i,
        {
            let (reg, v) = pairs[i];
            match queue_index(&v, writes) {
                Some(n) => {
                    assert(b.contains_key(pairs@[i as int].0));
                    match found {
                        None => {
                            found = Some((n, n));
                        },
                        Some((lo, hi)) => {
                            let nlo = if n < lo {
                                n
                            } else {
                                lo
                            };
                            let nhi = if n > hi {
                                n
                            } else {
                                hi
                            };
                            found = Some((nlo, nhi));
                        },
                    }
                },
                None => {},
            }
            i = i + 1;
        }
        proof {
            match found {
                None => {
                    assert forall|r: X64Reg| #[trigger] b.contains_key(r) implies queue_idx(
                        b[r],
                        writes,
                    ) is None by {
                        assert(pairs@.contains((r, b[r])));
                        let j = choose|j: int| 0 <= j < pairs.len() && pairs@[j] == (r, b[r]);
                        assert(queue_idx(pairs@[j].1, writes) is None);
                    }
                },
                Some((lo, hi)) => {
                    assert forall|r: X64Reg|
                        #[trigger] b.contains_key(r) && queue_idx(b[r], writes) is Some implies lo
                        <= queue_idx(b[r], writes)->0 <= hi by {
                        assert(pairs@.contains((r, b[r])));
                        let j = choose|j: int| 0 <= j < pairs.len() && pairs@[j] == (r, b[r]);
                        assert(queue_idx(pairs@[j].1, writes) is Some);
                    }
                },
            }
        }
        found
    }

    /// The place for new saved flags: one past the greatest place held, or
    /// `0`.
    fn max_flag(&self) -> (r: usize)
        requires
            self.wf(),
            queue_fits(self.bindings(), false),
        ensures
            r == next_flag_place(self.bindings()),
    {
        match self.queue_bounds(false) {
            Some((_, hi)) => {
                proof {
                    lemma_greatest_place(self.bindings(), false, hi);
                    let r = choose|r: X64Reg|
                        #[trigger] self.bindings().contains_key(r) && queue_idx(self.bindings()[r], false)
                            == Some(hi);
                }
                hi + 1
            },
            None => 0,
        }
    }

    /// The first place of the queue of saved flags: the least place held,
    /// or `0`.
    fn min_flag(&self) -> (r: usize)
        requires
            self.wf(),
        ensures
            r == first_place(self.bindings(), false),
            !queue_empty(self.bindings(), false) ==> is_least(self.bindings(), false, r),
    {
        match self.queue_bounds(false) {
            Some((lo, _)) => {
                proof {
                    lemma_least_place(self.bindings(), false, lo);
                }
                lo
            },
            None => 0,
        }
    }

    /// The place for a new delayed write: one past the least place held,
    /// or `0`.
    fn max_write(&self) -> (r: usize)
        requires
            self.wf(),
            queue_fits(self.bindings(), true),
        ensures
            r == next_write_place(self.bindings()),
    {
        match self.queue_bounds(true) {
            Some((lo, _)) => {
                proof {
                    lemma_least_place(self.bindings(), true, lo);
                    let r = choose|r: X64Reg|
                        #[trigger] self.bindings().contains_key(r) && queue_idx(self.bindings()[r], true)
                            == Some(lo);
                }
                lo + 1
            },
            None => 0,
        }
    }

    /// The first place of the queue of delayed writes: the least place
    /// held, or `0`.
    fn min_write(&self) -> (r: usize)
        requires
            self.wf(),
        ensures
            r == first_place(self.bindings(), true),
            !queue_empty(self.bindings(), true) ==> is_least(self.bindings(), true, r),
    {
        match self.queue_bounds(true) {
            Some((lo, _)) => {
                proof {
                    lemma_least_place(self.bindings(), true, lo);
                }
                lo
            },
            None => 0,
        }
    }

    /// How many registers hold a delayed write.
    fn write_count(&self) -> (n: usize)
        requires
            self.wf(),
        ensures
            n == write_regs(self.bindings()).len(),
            (n == 0) == queue_empty(self.bindings(), true),
    {
        let ghost b = self.bindings();
        let ghost p = |r: X64Reg| b.contains_key(r) && b[r] is DelayedWrite;
        let all = X64Reg::all_regs();
        let mut n: usize = 0;
        let mut i: usize = 0;
        while i < all.len()
            invariant
                0 <= i <= all.len(),
                all@ == X64Reg::spec_all_regs(),
                self.wf(),
                b == self.bindings(),
                n == keep(all@.take(i as int), p).len(),
                n <= i,
                forall|r: X64Reg| #[trigger] p(r) == (b.contains_key(r) && b[r] is DelayedWrite),
            decreases all.len() - i,
        {
            let r = all[i];
            proof {
                let t = all@.take(i + 1);
                assert(t.drop_last() == all@.take(i as int));
                assert(t.last() == r);
            }
            match self.bound_value(r) {
                Some(JITValue::DelayedWrite(..)) => {
                    n = n + 1;
                },
                _ => {},
            }
            i = i + 1;
        }
        proof {
            assert(all@.take(all.len() as int) == all@);
            lemma_keep(all@, p);
            let w = write_regs(b);
            assert(w == keep(all@, p));
            if n == 0 {
                assert forall|r: X64Reg| #[trigger] b.contains_key(r) implies queue_idx(b[r], true) is None by {
                    lemma_all_regs_complete(r);
                    if b[r] is DelayedWrite {
                        assert(w.contains(r));
                    }
                }
            } else {
                assert(w.contains(w[0]));
                assert(p(w[0]));
            }
        }
        n
    }

    /// Saves the flags in the first register in priority order: what it
    /// held is stored, and the saved flags take the place after the last
    /// saved flags in the queue.
    pub fn bind_flags(&mut self) -> (t: MultiTransfer)
        requires
            old(self).wf(),
            spec_prioritized(old(self).bindings()).len() > 0,
            queue_fits(old(self).bindings(), false),
        ensures
            final(self).wf(),
            final(self).same_frame(*old(self)),
            final(self).bindings() == bind_in(
                old(self).bindings(),
                spec_prioritized(old(self).bindings())[0],
                JITValue::Flags(Idx(next_flag_place(old(self).bindings()))),
            ),
            t.spec_moves() == spill(old(self).bindings(), spec_prioritized(old(self).bindings())[0])
                + seq![
                load(
                    spec_prioritized(old(self).bindings())[0],
                    JITValue::Flags(Idx(next_flag_place(old(self).bindings()))),
                ),
            ],
    {
        let flag_idx = Idx(self.max_flag());
        let prio = self.prioritized_regs();
        let reg = prio[0];
        let mut transfers: Vec<Transfer> = Vec::new();
        match self.bound_value(reg) {
            Some(prev_value) => {
                transfers.push(
                    Transfer { reg, other: GenericValue::JITValue(prev_value), dir: Direction::FromReg },
                );
            },
            None => {},
        }
        self.bind_raw(reg, JITValue::Flags(flag_idx));
        transfers.push(
            Transfer { reg, other: GenericValue::JITValue(JITValue::Flags(flag_idx)), dir: Direction::ToReg },
        );
        assert(transfers@ =~= spill(old(self).bindings(), reg) + seq![load(reg, JITValue::Flags(flag_idx))]);
        MultiTransfer(transfers)
    }

    /// Takes the saved flags at the first place of the queue out of their
    /// register; the move stores them. Nothing happens when no flags are
    /// saved there.
    pub fn unbind_flags(&mut self) -> (t: MultiTransfer)
        requires
            old(self).wf(),
        ensures
            final(self).wf(),
            final(self).same_frame(*old(self)),
            ({
                let b = old(self).bindings();
                let v = JITValue::Flags(Idx(first_place(b, false)));
                if is_bound(b, v) {
                    &&& final(self).bindings() == b.remove(reg_of(b, v))
                    &&& t.spec_moves() == seq![
                        Transfer { reg: reg_of(b, v), other: GenericValue::JITValue(v), dir: Direction::FromReg },
                    ]
                } else {
                    &&& final(self).bindings() == b
                    &&& t.spec_moves() == Seq::<Transfer>::empty()
                }
            }),
    {
        let ghost b = self.bindings();
        proof {
            self.lemma_wf_injective();
        }
        let flag_idx = Idx(self.min_flag());
        let v = JITValue::Flags(flag_idx);
        match self.bound_reg(v) {
            Some(reg) => {
                let transfers = vec![
                    Transfer { reg, other: GenericValue::JITValue(v), dir: Direction::FromReg },
                ];
                self.unbind_raw(reg);
                proof {
                    assert(reg_of(b, v) == reg);
                }
                MultiTransfer(transfers)
            },
            None => MultiTransfer(Vec::new()),
        }
    }

    /// Makes room for a delayed write to `emu_reg` in the first register in
    /// priority order: what it held is stored, and the write takes the
    /// place one past the first place of the queue. Nothing is loaded.
    pub fn bind_delayed_write(&mut self, emu_reg: EmuReg) -> (t: MultiTransfer)
        requires
            old(self).wf(),
            spec_prioritized(old(self).bindings()).len() > 0,
            queue_fits(old(self).bindings(), true),
        ensures
            final(self).wf(),
            final(self).same_frame(*old(self)),
            final(self).bindings() == bind_in(
                old(self).bindings(),
                spec_prioritized(old(self).bindings())[0],
                JITValue::DelayedWrite(emu_reg, Idx(next_write_place(old(self).bindings()))),
            ),
            t.spec_moves() == spill(old(self).bindings(), spec_prioritized(old(self).bindings())[0]),
    {
        let idx = Idx(self.max_write());
        let prio = self.prioritized_regs();
        let reg = prio[0];
        let mut transfers: Vec<Transfer> = Vec::new();
        match self.bound_value(reg) {
            Some(prev_value) => {
                transfers.push(
                    Transfer { reg, other: GenericValue::JITValue(prev_value), dir: Direction::FromReg },
                );
            },
            None => {},
        }
        self.bind_raw(reg, JITValue::DelayedWrite(emu_reg, idx));
        assert(transfers@ =~= spill(old(self).bindings(), reg));
        MultiTransfer(transfers)
    }

    /// A delayed write to `emu_reg` that some register holds, if there is
    /// one; when there are several, the first in the order in which the
    /// register map hands them out.
    pub fn get_delayed_write(&self, emu_reg: EmuReg) -> (r: Option<JITValue>)
        requires
            self.wf(),
        ensures
            match r {
                Some(v) => is_bound(self.bindings(), v) && v is DelayedWrite && write_target(v)
                    == emu_reg,
                None => forall|x: X64Reg|
                    #[trigger] self.bindings().contains_key(x) ==> !(self.bindings()[x] is DelayedWrite
                        && write_target(self.bindings()[x]) == emu_reg),
            },
    {
        let ghost b = self.bindings();
        let pairs = self.binding_pairs();
        let mut i: usize = 0;
        while i < pairs.len()
            invariant
                0 <= i <= pairs.len(),
                b == self.bindings(),
                forall|j: int|
                    0 <= j < pairs.len() ==> b.contains_key((#[trigger] pairs@[j]).0) && b[pairs@[j].0]
                        == pairs@[j].1,
                forall|j: int|
                    0 <= j < i ==> !((#[trigger] pairs@[j]).1 is DelayedWrite && write_target(
                        pairs@[j].1,
                    ) == emu_reg),
            decreases pairs.len() - i,
        {
            let (reg, v) = pairs[i];
            match v {
                JITValue::DelayedWrite(e, _) => {
                    if e == emu_reg {
                        assert(b.contains_key(pairs@[i as int].0));
                        return Some(v);
                    }
                },
                _ => {},
            }
            i = i + 1;
        }
        proof {
            assert forall|x: X64Reg| #[trigger] b.contains_key(x) implies !(b[x] is DelayedWrite
                && write_target(b[x]) == emu_reg) by {
                assert(pairs@.contains((x, b[x])));
                let j = choose|j: int| 0 <= j < pairs.len() && pairs@[j] == (x, b[x]);
                assert(!(pairs@[j].1 is DelayedWrite && write_target(pairs@[j].1) == emu_reg));
            }
        }
        None
    }

    /// Carries out the delayed write at the first place of the queue, if
    /// any: its emulator register is bound (as `bind_value` binds it) unless
    /// it is already, the register holding the write is unbound, and the
    /// write's value is moved into the emulator register's register. When
    /// several writes share the first place, the one processed is the first
    /// in the order in which the register map hands them out.
    pub fn process_delayed_write(&mut self) -> (t: MultiTransfer)
        requires
            old(self).wf(),
            forall|x: X64Reg|
                #[trigger] old(self).bindings().contains_key(x) && queue_idx(old(self).bindings()[x], true)
                    == Some(first_place(old(self).bindings(), true)) ==> is_bound(
                    old(self).bindings(),
                    JITValue::EmuReg(write_target(old(self).bindings()[x])),
                ) || spec_prioritized(old(self).bindings()).len() > 0,
        ensures
            final(self).wf(),
            final(self).same_frame(*old(self)),
            queue_empty(old(self).bindings(), true) ==> final(self).bindings() == old(self).bindings()
                && t.spec_moves() == Seq::<Transfer>::empty(),
            !queue_empty(old(self).bindings(), true) ==> exists|x: X64Reg|
                #[trigger] processed(old(self).bindings(), x, final(self).bindings(), t.spec_moves()),
    {
        let ghost b = self.bindings();
        if self.write_count() != 0 {
            let idx = self.min_write();
            let pairs = self.binding_pairs();
            let mut found: Option<(X64Reg, EmuReg)> = None;
            let mut i: usize = 0;
            while i < pairs.len()
                invariant
                    0 <= i <= pairs.len(),
                    b == self.bindings(),
                    forall|j: int|
                        0 <= j < pairs.len() ==> b.contains_key((#[trigger] pairs@[j]).0)
                            && b[pairs@[j].0] == pairs@[j].1,
                    match found {
                        None => forall|j: int|
                            0 <= j < i ==> queue_idx((#[trigger] pairs@[j]).1, true) != Some(idx),
                        Some((x, e)) => b.contains_key(x) && b[x] == JITValue::DelayedWrite(e, Idx(idx)),
                    },
                decreases pairs.len() - i,
            {
                if found.is_none() {
                    let (reg, v) = pairs[i];
                    match v {
                        JITValue::DelayedWrite(e, n) => {
                            if n.0 == idx {
                                assert(b.contains_key(pairs@[i as int].0));
                                found = Some((reg, e));
                            }
                        },
                        _ => {},
                    }
                }
                i = i + 1;
            }
            match found {
                Some((x, e)) => {
                    let ev = JITValue::EmuReg(e);
                    let ghost un = spec_unbound_values(b, seq![ev]);
                    let ghost repl = spec_replacements(b, seq![ev]);
                    let ghost b1 = bind_steps(b, un, repl);
                    let mut transfers: Vec<Transfer> = Vec::new();
                    let other_reg = match self.value_to_reg(&ev) {
                        Some(mapped_reg) => {
                            proof {
                                lemma_keep(seq![ev], |v: JITValue| !is_bound(b, v));
                                assert(is_bound(b, ev));
                                if un.len() > 0 {
                                    assert(un.contains(un[0]));
                                }
                                assert(un =~= Seq::<JITValue>::empty());
                                assert(b1 == b);
                                assert(bind_moves(b, un, repl) =~= Seq::<Transfer>::empty());
                            }
                            mapped_reg
                        },
                        None => {
                            assert(b[x] is DelayedWrite);
                            assert(write_target(b[x]) == e);
                            proof {
                                lemma_least_place(b, true, idx);
                                assert(queue_idx(b[x], true) == Some(first_place(b, true)));
                                assert(!is_bound(b, ev));
                                let pr = spec_prioritized(b);
                                let keep_r = |r: X64Reg| !(b.contains_key(r) && seq![ev].contains(b[r]));
                                lemma_keep(pr, keep_r);
                                lemma_keep(seq![ev], |v: JITValue| !is_bound(b, v));
                                assert(!(b.contains_key(pr[0]) && seq![ev].contains(b[pr[0]]))) by {
                                    if b.contains_key(pr[0]) && seq![ev].contains(b[pr[0]]) {
                                        assert(seq![ev][0] == b[pr[0]]);
                                        assert(is_bound(b, ev));
                                    }
                                }
                                assert(pr.contains(pr[0]));
                                assert(repl.contains(pr[0]));
                                assert(can_bind(b, seq![ev]));
                            }
                            let t = self.bind_value(ev);
                            transfers = t.0;
                            proof {
                                lemma_bind_multivalue_binds_all(b, seq![ev]);
                                assert(seq![ev].contains(ev)) by {
                                    assert(seq![ev][0] == ev);
                                }
                            }
                            match self.value_to_reg(&ev) {
                                Some(mapped_reg) => mapped_reg,
                                None => {
                                    proof {
                                        assert(false);
                                    }
                                    X64Reg::RAX
                                },
                            }
                        },
                    };
                    proof {
                        self.lemma_wf_injective();
                        assert(self.bindings() == b1);
                        assert(transfers@ == bind_moves(b, un, repl));
                        assert(reg_of(b1, ev) == other_reg);
                    }
                    self.unbind_raw(x);
                    transfers.push(
                        Transfer { reg: x, other: GenericValue::X64Reg(other_reg), dir: Direction::FromReg },
                    );
                    proof {
                        assert(write_target(b[x]) == e);
                        assert(self.bindings() == b1.remove(x));
                        lemma_least_place(b, true, idx);
                        assert(first_place(b, true) == idx);
                        assert(queue_idx(b[x], true) == Some(first_place(b, true)));
                        assert(transfers@ == bind_moves(b, un, repl) + seq![
                            Transfer { reg: x, other: GenericValue::X64Reg(reg_of(b1, ev)), dir: Direction::FromReg },
                        ]);
                    }
                    let t = MultiTransfer(transfers);
                    assert(processed(b, x, self.bindings(), t.spec_moves()));
                    t
                },
                None => {
                    proof {
                        let r = choose|r: X64Reg|
                            #[trigger] b.contains_key(r) && queue_idx(b[r], true) == Some(idx);
                        assert(pairs@.contains((r, b[r])));
                        let j = choose|j: int| 0 <= j < pairs.len() && pairs@[j] == (r, b[r]);
                        assert(queue_idx(pairs@[j].1, true) != Some(idx));
                    }
                    MultiTransfer(Vec::new())
                },
            }
        } else {
            MultiTransfer(Vec::new())
        }
    }
}

} // verus!
