//! Choosing registers for values, and the moves that rebinding calls for.

use vstd::prelude::*;
use crate::allocator::bind_in;
use crate::allocator::injective;
use crate::allocator::is_bound;
use crate::allocator::Allocator;
use crate::Direction;
use crate::GenericValue;
use crate::JITValue;
use crate::MultiTransfer;
use crate::Transfer;
use crate::X64Reg;

verus! {

/// The elements of `s` that satisfy `p`, in order.
pub open spec fn keep<A>(s: Seq<A>, p: spec_fn(A) -> bool) -> Seq<A>
    decreases s.len(),
{
    if s.len() == 0 {
        Seq::empty()
    } else {
        let rest = keep(s.drop_last(), p);
        if p(s.last()) {
            rest.push(s.last())
        } else {
            rest
        }
    }
}

proof fn lemma_push_contains<A>(s: Seq<A>, y: A, x: A)
    ensures
        s.push(y).contains(x) <==> s.contains(x) || x == y,
{
    if s.push(y).contains(x) {
        let i = choose|i: int| 0 <= i < s.push(y).len() && s.push(y)[i] == x;
        if i < s.len() {
            assert(s[i] == x);
        }
    }
    if s.contains(x) {
        let i = choose|i: int| 0 <= i < s.len() && s[i] == x;
        assert(s.push(y)[i] == x);
    }
    if x == y {
        assert(s.push(y)[s.len() as int] == x);
    }
}

/// Filtering keeps exactly the elements that pass, keeps them distinct if
/// they were, and never lengthens the sequence.
pub proof fn lemma_keep<A>(s: Seq<A>, p: spec_fn(A) -> bool)
    ensures
        forall|x: A| #[trigger] keep(s, p).contains(x) <==> s.contains(x) && p(x),
        s.no_duplicates() ==> keep(s, p).no_duplicates(),
        keep(s, p).len() <= s.len(),
    decreases s.len(),
{
    if s.len() > 0 {
        let d = s.drop_last();
        lemma_keep(d, p);
        let rest = keep(d, p);
        assert(s == d.push(s.last()));
        assert forall|x: A| #[trigger] keep(s, p).contains(x) <==> s.contains(x) && p(x) by {
            lemma_push_contains(d, s.last(), x);
            if p(s.last()) {
                lemma_push_contains(rest, s.last(), x);
            }
        }
        if s.no_duplicates() {
            assert(d.no_duplicates()) by {
                assert forall|i: int, j: int|
                    0 <= i < d.len() && 0 <= j < d.len() && i != j implies d[i] != d[j] by {
                    assert(d[i] == s[i]);
                    assert(d[j] == s[j]);
                }
            }
            if p(s.last()) {
                assert(!d.contains(s.last())) by {
                    if d.contains(s.last()) {
                        let j = choose|j: int| 0 <= j < d.len() && d[j] == s.last();
                        assert(s[j] == s[s.len() - 1]);
                    }
                }
                assert(!rest.contains(s.last()));
                let k = keep(s, p);
                assert forall|i: int, j: int|
                    0 <= i < k.len() && 0 <= j < k.len() && i != j implies k[i] != k[j] by {
                    if i == rest.len() {
                        assert(k[j] == rest[j]);
                        assert(rest.contains(k[j]));
                    } else if j == rest.len() {
                        assert(k[i] == rest[i]);
                        assert(rest.contains(k[i]));
                    } else {
                        assert(k[i] == rest[i]);
                        assert(k[j] == rest[j]);
                    }
                }
            }
        }
    }
}

/// The free registers that nothing is bound to, in the order of
/// [`X64Reg::free_regs`].
pub open spec fn spec_available(b: Map<X64Reg, JITValue>) -> Seq<X64Reg> {
    keep(X64Reg::spec_free_regs(), |r: X64Reg| !b.contains_key(r))
}

/// The free registers that hold a value with a home on the stack, in
/// order: not saved flags or a delayed write.
pub open spec fn spec_spillable(b: Map<X64Reg, JITValue>) -> Seq<X64Reg> {
    keep(
        X64Reg::spec_free_regs(),
        |r: X64Reg| b.contains_key(r) && b[r].has_home(),
    )
}

/// The registers in the order in which they are taken for new bindings:
/// the unbound ones first, then those whose value can be spilled.
pub open spec fn spec_prioritized(b: Map<X64Reg, JITValue>) -> Seq<X64Reg> {
    spec_available(b) + spec_spillable(b)
}

/// The registers that may be taken to bind some of `values`: in priority
/// order, those not holding one of `values`.
pub open spec fn spec_replacements(b: Map<X64Reg, JITValue>, values: Seq<JITValue>) -> Seq<X64Reg> {
    keep(
        spec_prioritized(b),
        |r: X64Reg| !(b.contains_key(r) && values.contains(b[r])),
    )
}

/// Those of `values` that are not bound, in order.
pub open spec fn spec_unbound_values(b: Map<X64Reg, JITValue>, values: Seq<JITValue>) -> Seq<
    JITValue,
> {
    keep(values, |v: JITValue| !is_bound(b, v))
}

/// Whether there are enough registers to bind all of `values` at once.
pub open spec fn can_bind(b: Map<X64Reg, JITValue>, values: Seq<JITValue>) -> bool {
    spec_unbound_values(b, values).len() <= spec_replacements(b, values).len()
}

/// The store that frees `reg` before it is rebound, if it holds a value.
pub open spec fn spill(b: Map<X64Reg, JITValue>, reg: X64Reg) -> Seq<Transfer> {
    if b.contains_key(reg) {
        seq![Transfer { reg: reg, other: GenericValue::JITValue(b[reg]), dir: Direction::FromReg }]
    } else {
        Seq::empty()
    }
}

/// The load of `value` into `reg`.
pub open spec fn load(reg: X64Reg, value: JITValue) -> Transfer {
    Transfer { reg: reg, other: GenericValue::JITValue(value), dir: Direction::ToReg }
}

/// The bindings after binding each of `un` to the register at the same
/// index of `repl`, in turn.
pub open spec fn bind_steps(b: Map<X64Reg, JITValue>, un: Seq<JITValue>, repl: Seq<X64Reg>) -> Map<
    X64Reg,
    JITValue,
>
    decreases un.len(),
{
    if un.len() == 0 {
        b
    } else {
        bind_in(bind_steps(b, un.drop_last(), repl), repl[un.len() - 1], un.last())
    }
}

/// The moves for binding each of `un` to the register at the same index of
/// `repl`, in turn: for each, a store of what the register held, then a load.
pub open spec fn bind_moves(b: Map<X64Reg, JITValue>, un: Seq<JITValue>, repl: Seq<X64Reg>) -> Seq<
    Transfer,
>
    decreases un.len(),
{
    if un.len() == 0 {
        Seq::empty()
    } else {
        let before = bind_steps(b, un.drop_last(), repl);
        let reg = repl[un.len() - 1];
        bind_moves(b, un.drop_last(), repl) + spill(before, reg) + seq![load(reg, un.last())]
    }
}

/// `b` with the bindings of `r1` and `r2` exchanged.
pub open spec fn swapped(b: Map<X64Reg, JITValue>, r1: X64Reg, r2: X64Reg) -> Map<X64Reg, JITValue> {
    Map::new(
        |x: X64Reg|
            if x == r1 {
                b.contains_key(r2)
            } else if x == r2 {
                b.contains_key(r1)
            } else {
                b.contains_key(x)
            },
        |x: X64Reg|
            if x == r1 {
                b[r2]
            } else if x == r2 {
                b[r1]
            } else {
                b[x]
            },
    )
}

/// `b` without the bindings of emulator registers.
pub open spec fn without_emu(b: Map<X64Reg, JITValue>) -> Map<X64Reg, JITValue> {
    Map::new(|x: X64Reg| b.contains_key(x) && !(b[x] is EmuReg), |x: X64Reg| b[x])
}

/// The free registers are every register but `%rsp`, each once.
pub proof fn lemma_free_regs_distinct()
    ensures
        X64Reg::spec_free_regs().no_duplicates(),
        forall|r: X64Reg| #[trigger] X64Reg::spec_free_regs().contains(r) <==> r != X64Reg::RSP,
{
    let f = X64Reg::spec_free_regs();
    assert forall|i: int, j: int| 0 <= i < f.len() && 0 <= j < f.len() && i != j implies f[i]
        != f[j] by {
        assert(f[i].code() != f[j].code());
    }
    assert forall|r: X64Reg| #[trigger] f.contains(r) <==> r != X64Reg::RSP by {
        if r != X64Reg::RSP {
            match r {
                X64Reg::RAX => assert(f[0] == r),
                X64Reg::RCX => assert(f[1] == r),
                X64Reg::RBP => assert(f[2] == r),
                X64Reg::RBX => assert(f[3] == r),
                X64Reg::R8 => assert(f[4] == r),
                X64Reg::R9 => assert(f[5] == r),
                X64Reg::R10 => assert(f[6] == r),
                X64Reg::R11 => assert(f[7] == r),
                X64Reg::R12 => assert(f[8] == r),
                X64Reg::R13 => assert(f[9] == r),
                X64Reg::R14 => assert(f[10] == r),
                X64Reg::R15 => assert(f[11] == r),
                X64Reg::RDX => assert(f[12] == r),
                X64Reg::RSI => assert(f[13] == r),
                X64Reg::RDI => assert(f[14] == r),
                X64Reg::RSP => {},
            }
        }
    }
}

/// The priority order holds each free register at most once.
pub proof fn lemma_prioritized_distinct(b: Map<X64Reg, JITValue>)
    ensures
        spec_prioritized(b).no_duplicates(),
        forall|r: X64Reg|
            #[trigger] spec_prioritized(b).contains(r) ==> r != X64Reg::RSP && (b.contains_key(r)
                ==> b[r].has_home()),
{
    lemma_free_regs_distinct();
    let pa = |r: X64Reg| !b.contains_key(r);
    let ps = |r: X64Reg| b.contains_key(r) && b[r].has_home();
    lemma_keep(X64Reg::spec_free_regs(), pa);
    lemma_keep(X64Reg::spec_free_regs(), ps);
    let a = spec_available(b);
    let s = spec_spillable(b);
    let p = a + s;
    assert forall|i: int, j: int| 0 <= i < p.len() && 0 <= j < p.len() && i != j implies p[i]
        != p[j] by {
        if i < a.len() && j >= a.len() {
            assert(a.contains(p[i]));
            assert(s.contains(p[j]));
        } else if j < a.len() && i >= a.len() {
            assert(a.contains(p[j]));
            assert(s.contains(p[i]));
        } else if i >= a.len() {
            assert(p[i] == s[i - a.len()]);
            assert(p[j] == s[j - a.len()]);
        }
    }
    assert forall|r: X64Reg| #[trigger] p.contains(r) implies r != X64Reg::RSP && (b.contains_key(r)
        ==> b[r].has_home()) by {
        let i = choose|i: int| 0 <= i < p.len() && p[i] == r;
        if i < a.len() {
            assert(a.contains(r));
        } else {
            assert(s[i - a.len()] == r);
            assert(s.contains(r));
        }
    }
}

proof fn lemma_bind_steps_inv(
    b: Map<X64Reg, JITValue>,
    values: Seq<JITValue>,
    un: Seq<JITValue>,
    repl: Seq<X64Reg>,
    k: int,
)
    requires
        0 <= k <= un.len() <= repl.len(),
        repl.no_duplicates(),
        forall|r: X64Reg| #[trigger] repl.contains(r) ==> !(b.contains_key(r) && values.contains(b[r])),
        forall|u: JITValue| #[trigger] un.contains(u) ==> !is_bound(b, u),
    ensures
        forall|x: X64Reg|
            #[trigger] bind_steps(b, un.take(k), repl).contains_key(x) ==> repl.take(k).contains(x)
                || (b.contains_key(x) && bind_steps(b, un.take(k), repl)[x] == b[x]),
        forall|r0: X64Reg|
            #[trigger] b.contains_key(r0) && values.contains(b[r0]) ==> bind_steps(
                b,
                un.take(k),
                repl,
            ).contains_key(r0) && bind_steps(b, un.take(k), repl)[r0] == b[r0],
        forall|j: int| 0 <= j < k ==> is_bound(bind_steps(b, un.take(k), repl), #[trigger] un[j]),
    decreases k,
{
    if k > 0 {
        lemma_bind_steps_inv(b, values, un, repl, k - 1);
        let t = un.take(k);
        assert(t.drop_last() == un.take(k - 1));
        assert(t.last() == un[k - 1]);
        let bb = bind_steps(b, un.take(k - 1), repl);
        let r = repl[k - 1];
        let u = un[k - 1];
        let nb = bind_steps(b, t, repl);
        assert(nb == bind_in(bb, r, u));
        assert(repl.contains(r));
        assert(un.contains(u));
        assert forall|x: X64Reg| #[trigger] nb.contains_key(x) implies repl.take(k).contains(x) || (
        b.contains_key(x) && nb[x] == b[x]) by {
            if x == r {
                assert(repl.take(k)[k - 1] == r);
            } else {
                assert(bb.contains_key(x));
                if repl.take(k - 1).contains(x) {
                    let i = choose|i: int| 0 <= i < k - 1 && #[trigger] repl.take(k - 1)[i] == x;
                    assert(repl.take(k)[i] == x);
                }
            }
        }
        assert forall|r0: X64Reg| #[trigger] b.contains_key(r0) && values.contains(b[r0]) implies nb.contains_key(
            r0,
        ) && nb[r0] == b[r0] by {
            assert(r0 != r);
            assert(is_bound(b, b[r0]));
            assert(b[r0] != u);
        }
        assert forall|j: int| 0 <= j < k implies is_bound(nb, #[trigger] un[j]) by {
            if j == k - 1 || un[j] == u {
                assert(nb.contains_key(r) && nb[r] == u);
            } else {
                assert(is_bound(bb, un[j]));
                let x = choose|x: X64Reg| #[trigger] bb.contains_key(x) && bb[x] == un[j];
                if repl.take(k - 1).contains(x) {
                    let i = choose|i: int| 0 <= i < k - 1 && #[trigger] repl.take(k - 1)[i] == x;
                    assert(repl[i] == x);
                    assert(x != r);
                } else {
                    assert(b.contains_key(x) && b[x] == un[j]);
                    assert(un.contains(un[j]));
                    assert(is_bound(b, un[j]));
                }
                assert(nb.contains_key(x) && nb[x] == un[j]);
            }
        }
    } else {
        assert(un.take(0) == Seq::<JITValue>::empty());
    }
}

/// Binding several values at once binds every one of them, and a register
/// that already held one of them keeps it.
pub proof fn lemma_bind_multivalue_binds_all(b: Map<X64Reg, JITValue>, values: Seq<JITValue>)
    requires
        can_bind(b, values),
    ensures
        forall|v: JITValue|
            #[trigger] values.contains(v) ==> is_bound(
                bind_steps(b, spec_unbound_values(b, values), spec_replacements(b, values)),
                v,
            ),
        forall|r: X64Reg|
            #[trigger] b.contains_key(r) && values.contains(b[r]) ==> bind_steps(
                b,
                spec_unbound_values(b, values),
                spec_replacements(b, values),
            ).contains_key(r) && bind_steps(
                b,
                spec_unbound_values(b, values),
                spec_replacements(b, values),
            )[r] == b[r],
{
    let un = spec_unbound_values(b, values);
    let repl = spec_replacements(b, values);
    let pr = |r: X64Reg| !(b.contains_key(r) && values.contains(b[r]));
    let pu = |v: JITValue| !is_bound(b, v);
    lemma_prioritized_distinct(b);
    lemma_keep(spec_prioritized(b), pr);
    lemma_keep(values, pu);
    assert forall|r: X64Reg| #[trigger] repl.contains(r) implies !(b.contains_key(r) && values.contains(
        b[r],
    )) by {
        assert(pr(r));
    }
    assert forall|u: JITValue| #[trigger] un.contains(u) implies !is_bound(b, u) by {
        assert(pu(u));
    }
    lemma_bind_steps_inv(b, values, un, repl, un.len() as int);
    assert(un.take(un.len() as int) == un);
    let f = bind_steps(b, un, repl);
    assert forall|v: JITValue| #[trigger] values.contains(v) implies is_bound(f, v) by {
        if is_bound(b, v) {
            let r0 = choose|r0: X64Reg| #[trigger] b.contains_key(r0) && b[r0] == v;
            assert(f.contains_key(r0) && f[r0] == v);
        } else {
            assert(un.contains(v));
            let j = choose|j: int| 0 <= j < un.len() && un[j] == v;
            assert(is_bound(f, un[j]));
        }
    }
}

/// Exchanging the bindings of two registers twice, in either order, gives
/// back the bindings one started with.
pub proof fn law_swap_twice(b: Map<X64Reg, JITValue>, r1: X64Reg, r2: X64Reg)
    ensures
        swapped(swapped(b, r1, r2), r1, r2) == b,
        swapped(swapped(b, r1, r2), r2, r1) == b,
{
    assert(swapped(swapped(b, r1, r2), r1, r2) =~= b);
    assert(swapped(swapped(b, r1, r2), r2, r1) =~= b);
}

/// The bindings after binding `r1`'s value to `r2` (or unbinding `r2` if `r1`
/// holds nothing) and then `r2`'s former value to `r1` (or unbinding `r1`).
pub open spec fn swap_steps(b: Map<X64Reg, JITValue>, r1: X64Reg, r2: X64Reg) -> Map<X64Reg, JITValue> {
    let s1 = if b.contains_key(r1) {
        bind_in(b, r2, b[r1])
    } else {
        b.remove(r2)
    };
    if b.contains_key(r2) {
        bind_in(s1, r1, b[r2])
    } else {
        s1.remove(r1)
    }
}

/// Moving two registers' values into each other's place, one binding at a
/// time, exchanges their bindings and leaves every other binding alone.
pub proof fn lemma_swap_steps(b: Map<X64Reg, JITValue>, r1: X64Reg, r2: X64Reg)
    requires
        injective(b),
        r1 != r2,
    ensures
        swap_steps(b, r1, r2) == swapped(b, r1, r2),
{
    let s1 = if b.contains_key(r1) {
        bind_in(b, r2, b[r1])
    } else {
        b.remove(r2)
    };
    let f = swap_steps(b, r1, r2);
    let g = swapped(b, r1, r2);
    assert forall|x: X64Reg| #[trigger] f.contains_key(x) == g.contains_key(x) by {
        if x != r1 && x != r2 && b.contains_key(x) {
            if b.contains_key(r1) {
                assert(b[x] != b[r1]);
            }
            if b.contains_key(r2) {
                assert(b[x] != b[r2]);
            }
        }
        if x == r2 && b.contains_key(r1) && b.contains_key(r2) {
            assert(b[r1] != b[r2]);
        }
    }
    assert forall|x: X64Reg| #[trigger] f.contains_key(x) implies f[x] == g[x] by {
        if x == r2 && b.contains_key(r1) && b.contains_key(r2) {
            assert(b[r1] != b[r2]);
        }
    }
    assert(f =~= g);
}

proof fn lemma_keep_split<A>(s: Seq<A>, p: spec_fn(A) -> bool, q: spec_fn(A) -> bool)
    requires
        forall|x: A| #[trigger] q(x) == !p(x),
    ensures
        keep(s, p).len() + keep(s, q).len() == s.len(),
    decreases s.len(),
{
    if s.len() > 0 {
        lemma_keep_split(s.drop_last(), p, q);
    }
}

proof fn lemma_prioritized_len(b: Map<X64Reg, JITValue>)
    requires
        forall|r: X64Reg| #[trigger] b.contains_key(r) ==> r != X64Reg::RSP && b[r].has_home(),
    ensures
        spec_prioritized(b).len() == 15,
{
    let p = spec_prioritized(b);
    let f = X64Reg::spec_free_regs();
    lemma_prioritized_distinct(b);
    lemma_free_regs_distinct();
    lemma_keep(f, |r: X64Reg| !b.contains_key(r));
    lemma_keep(f, |r: X64Reg| b.contains_key(r) && b[r].has_home());
    assert forall|r: X64Reg| #[trigger] p.contains(r) <==> f.contains(r) by {
        lemma_push_contains(spec_available(b), r, r);
        if f.contains(r) {
            if b.contains_key(r) {
                assert(spec_spillable(b).contains(r));
                let i = choose|i: int| 0 <= i < spec_spillable(b).len() && spec_spillable(b)[i] == r;
                assert(p[spec_available(b).len() + i] == r);
            } else {
                assert(spec_available(b).contains(r));
                let i = choose|i: int| 0 <= i < spec_available(b).len() && spec_available(b)[i] == r;
                assert(p[i] == r);
            }
        }
    }
    assert(p.to_set() =~= f.to_set());
    p.unique_seq_to_set();
    f.unique_seq_to_set();
}

/// With only values that have a home on the stack bound (no saved flags or
/// delayed writes) and `%rsp` never bound, up to fifteen values can always
/// be bound at once.
pub proof fn lemma_can_bind(b: Map<X64Reg, JITValue>, values: Seq<JITValue>)
    requires
        injective(b),
        forall|r: X64Reg| #[trigger] b.contains_key(r) ==> r != X64Reg::RSP && b[r].has_home(),
        values.len() <= 15,
    ensures
        can_bind(b, values),
{
    let pr = spec_prioritized(b);
    let reserved = |r: X64Reg| b.contains_key(r) && values.contains(b[r]);
    let free_ones = |r: X64Reg| !(b.contains_key(r) && values.contains(b[r]));
    let bound = |v: JITValue| is_bound(b, v);
    let unbound = |v: JITValue| !is_bound(b, v);
    lemma_prioritized_len(b);
    lemma_prioritized_distinct(b);
    lemma_keep_split(pr, reserved, free_ones);
    lemma_keep_split(values, bound, unbound);
    let rs = keep(pr, reserved);
    let kb = keep(values, bound);
    lemma_keep(pr, reserved);
    lemma_keep(values, bound);
    let img = |r: X64Reg| b[r];
    assert(vstd::relations::injective_on(img, rs.to_set())) by {
        assert forall|x: X64Reg, y: X64Reg|
            rs.to_set().contains(x) && rs.to_set().contains(y) && #[trigger] img(x) == #[trigger] img(y)
                implies x == y by {
            assert(rs.contains(x) && rs.contains(y));
            assert(reserved(x) && reserved(y));
        }
    }
    assert(rs.to_set().map(img).subset_of(kb.to_set())) by {
        assert forall|v: JITValue| #[trigger] rs.to_set().map(img).contains(v) implies kb.to_set().contains(
            v,
        ) by {
            let r = choose|r: X64Reg| rs.to_set().contains(r) && img(r) == v;
            assert(rs.contains(r));
            assert(reserved(r));
            assert(is_bound(b, v));
            assert(kb.contains(v));
        }
    }
    rs.unique_seq_to_set();
    vstd::set_lib::lemma_map_size(rs.to_set(), rs.to_set().map(img), img);
    vstd::set_lib::lemma_len_subset(rs.to_set().map(img), kb.to_set());
    kb.lemma_cardinality_of_set();
}

/// Every binding made by binding `un` one by one is an old binding or binds
/// one of `un` to one of `repl`.
pub proof fn lemma_bind_steps_origin(
    b: Map<X64Reg, JITValue>,
    un: Seq<JITValue>,
    repl: Seq<X64Reg>,
)
    requires
        un.len() <= repl.len(),
    ensures
        forall|x: X64Reg|
            #[trigger] bind_steps(b, un, repl).contains_key(x) ==> (b.contains_key(x) || repl.contains(
                x,
            )) && (is_bound(b, bind_steps(b, un, repl)[x]) || un.contains(bind_steps(b, un, repl)[x])),
        forall|i: int|
            0 <= i < bind_moves(b, un, repl).len() ==> {
                let t = #[trigger] bind_moves(b, un, repl)[i];
                &&& (b.contains_key(t.reg) || repl.contains(t.reg))
                &&& t.other matches GenericValue::JITValue(v) && (is_bound(b, v) || un.contains(v))
            },
    decreases un.len(),
{
    if un.len() > 0 {
        let d = un.drop_last();
        lemma_bind_steps_origin(b, d, repl);
        let before = bind_steps(b, d, repl);
        let r = repl[un.len() - 1];
        let u = un.last();
        assert(repl.contains(r));
        assert(un.contains(u));
        assert forall|v: JITValue| d.contains(v) implies #[trigger] un.contains(v) by {
            let j = choose|j: int| 0 <= j < d.len() && d[j] == v;
            assert(un[j] == v);
        }
        let f = bind_steps(b, un, repl);
        assert forall|x: X64Reg| #[trigger] f.contains_key(x) implies (b.contains_key(x) || repl.contains(x))
            && (is_bound(b, f[x]) || un.contains(f[x])) by {
            if x != r {
                assert(before.contains_key(x));
                if d.contains(before[x]) {
                    assert(un.contains(before[x]));
                }
            }
        }
        let m = bind_moves(b, un, repl);
        let m0 = bind_moves(b, d, repl);
        let sp = spill(before, r);
        assert forall|i: int| 0 <= i < m.len() implies {
            let t = #[trigger] m[i];
            &&& (b.contains_key(t.reg) || repl.contains(t.reg))
            &&& t.other matches GenericValue::JITValue(v) && (is_bound(b, v) || un.contains(v))
        } by {
            if i < m0.len() {
                assert(m[i] == m0[i]);
                let t = m0[i];
                if let GenericValue::JITValue(v) = t.other {
                    if d.contains(v) {
                        assert(un.contains(v));
                    }
                }
            } else if i < m0.len() + sp.len() {
                assert(m[i] == sp[i - m0.len()]);
                assert(before.contains_key(r));
                if d.contains(before[r]) {
                    assert(un.contains(before[r]));
                }
            } else {
                assert(m[i] == load(r, u));
            }
        }
    }
}

impl Allocator {
    fn available_regs(&self) -> (regs: Vec<X64Reg>)
        requires
            self.wf(),
        ensures
            regs@ == spec_available(self.bindings()),
    {
        let ghost b = self.bindings();
        let ghost p = |r: X64Reg| !b.contains_key(r);
        let free = X64Reg::free_regs();
        let mut regs: Vec<X64Reg> = Vec::new();
        let mut i: usize = 0;
        while i < free.len()
            invariant
                0 <= i <= free.len(),
                free@ == X64Reg::spec_free_regs(),
                self.wf(),
                b == self.bindings(),
                regs@ == keep(free@.take(i as int), p),
                forall|r: X64Reg| #[trigger] p(r) == !b.contains_key(r),
            decreases free.len() - i,
        {
            let r = free[i];
            let ghost prev = regs@;
            if self.bound_value(r).is_none() {
                regs.push(r);
            }
            proof {
                let t = free@.take(i + 1);
                assert(t.drop_last() == free@.take(i as int));
                assert(t.last() == r);
                assert(keep(t, p) == (if p(r) { prev.push(r) } else { prev }));
            }
            i = i + 1;
        }
        assert(free@.take(free.len() as int) == free@);
        regs
    }

    /// The registers in the order in which new bindings take them: first
    /// those that hold nothing, then those whose value can be stored away
    /// (an emulator register or a variable), each in the order of
    /// [`X64Reg::free_regs`].
    pub fn prioritized_regs(&self) -> (regs: Vec<X64Reg>)
        requires
            self.wf(),
        ensures
            regs@ == spec_prioritized(self.bindings()),
    {
        let ghost b = self.bindings();
        let ghost p = |r: X64Reg| b.contains_key(r) && b[r].has_home();
        let mut regs = self.available_regs();
        let free = X64Reg::free_regs();
        let mut spill: Vec<X64Reg> = Vec::new();
        let mut i: usize = 0;
        while i < free.len()
            invariant
                0 <= i <= free.len(),
                free@ == X64Reg::spec_free_regs(),
                self.wf(),
                b == self.bindings(),
                spill@ == keep(free@.take(i as int), p),
                forall|r: X64Reg| #[trigger] p(r) == (b.contains_key(r) && b[r].has_home()),
            decreases free.len() - i,
        {
            let r = free[i];
            let ghost prev = spill@;
            match self.bound_value(r) {
                Some(JITValue::EmuReg(_)) | Some(JITValue::Variable(_)) => {
                    spill.push(r);
                },
                _ => {},
            }
            proof {
                let t = free@.take(i + 1);
                assert(t.drop_last() == free@.take(i as int));
                assert(t.last() == r);
                assert(keep(t, p) == (if p(r) { prev.push(r) } else { prev }));
            }
            i = i + 1;
        }
        assert(free@.take(free.len() as int) == free@);
        regs.append(&mut spill);
        regs
    }

    /// The register that `value` is bound to, if any.
    pub fn value_to_reg(&self, value: &JITValue) -> (r: Option<X64Reg>)
        requires
            self.wf(),
        ensures
            match r {
                Some(reg) => self.bindings().contains_key(reg) && self.bindings()[reg] == *value,
                None => !is_bound(self.bindings(), *value),
            },
    {
        self.bound_reg(*value)
    }

    /// Binds `value` to `reg`. The moves store what `reg` held, if anything,
    /// then load `value` into it.
    pub fn bind_specific_reg(&mut self, value: JITValue, reg: X64Reg) -> (t: MultiTransfer)
        requires
            old(self).wf(),
        ensures
            final(self).wf(),
            final(self).same_frame(*old(self)),
            final(self).bindings() == bind_in(old(self).bindings(), reg, value),
            t.spec_moves() == spill(old(self).bindings(), reg) + seq![load(reg, value)],
    {
        let mut transfers: Vec<Transfer> = Vec::new();
        match self.bound_value(reg) {
            Some(prev_value) => {
                transfers.push(
                    Transfer { reg: reg, other: GenericValue::JITValue(prev_value), dir: Direction::FromReg },
                );
            },
            None => {},
        }
        self.bind_raw(reg, value);
        transfers.push(Transfer { reg: reg, other: GenericValue::JITValue(value), dir: Direction::ToReg });
        assert(transfers@ =~= spill(old(self).bindings(), reg) + seq![load(reg, value)]);
        MultiTransfer(transfers)
    }

    /// Binds `value` to a register, if it is not bound already.
    pub fn bind_value(&mut self, value: JITValue) -> (t: MultiTransfer)
        requires
            old(self).wf(),
            can_bind(old(self).bindings(), seq![value]),
        ensures
            final(self).wf(),
            final(self).same_frame(*old(self)),
            final(self).bindings() == bind_steps(
                old(self).bindings(),
                spec_unbound_values(old(self).bindings(), seq![value]),
                spec_replacements(old(self).bindings(), seq![value]),
            ),
            t.spec_moves() == bind_moves(
                old(self).bindings(),
                spec_unbound_values(old(self).bindings(), seq![value]),
                spec_replacements(old(self).bindings(), seq![value]),
            ),
    {
        let values = vec![value];
        assert(values@ == seq![value]);
        self.bind_multivalue(&values)
    }

    /// Whether `values` holds `v`.
    fn holds_value(values: &Vec<JITValue>, v: JITValue) -> (b: bool)
        ensures
            b == values@.contains(v),
    {
        let mut i: usize = 0;
        while i < values.len()
            invariant
                0 <= i <= values.len(),
                forall|j: int| 0 <= j < i ==> values@[j] != v,
            decreases values.len() - i,
        {
            if values[i] == v {
                return true;
            }
            i = i + 1;
        }
        false
    }

    /// Binds every one of `values` that is not bound yet, all at once: the
    /// registers that already hold one of `values` are left alone, and the
    /// others are taken in priority order, one per unbound value. For each,
    /// the moves store what the register held, if anything, then load the
    /// value.
    pub fn bind_multivalue(&mut self, values: &Vec<JITValue>) -> (t: MultiTransfer)
        requires
            old(self).wf(),
            can_bind(old(self).bindings(), values@),
        ensures
            final(self).wf(),
            final(self).same_frame(*old(self)),
            final(self).bindings() == bind_steps(
                old(self).bindings(),
                spec_unbound_values(old(self).bindings(), values@),
                spec_replacements(old(self).bindings(), values@),
            ),
            t.spec_moves() == bind_moves(
                old(self).bindings(),
                spec_unbound_values(old(self).bindings(), values@),
                spec_replacements(old(self).bindings(), values@),
            ),
    {
        let ghost b = self.bindings();
        let ghost reserved = |r: X64Reg| !(b.contains_key(r) && values@.contains(b[r]));
        let ghost unbound = |v: JITValue| !is_bound(b, v);
        let prio = self.prioritized_regs();
        let mut replacement_regs: Vec<X64Reg> = Vec::new();
        let mut i: usize = 0;
        while i < prio.len()
            invariant
                0 <= i <= prio.len(),
                prio@ == spec_prioritized(b),
                self.wf(),
                b == self.bindings(),
                replacement_regs@ == keep(prio@.take(i as int), reserved),
                forall|r: X64Reg|
                    #[trigger] reserved(r) == !(b.contains_key(r) && values@.contains(b[r])),
            decreases prio.len() - i,
        {
            let r = prio[i];
            let ghost prev = replacement_regs@;
            let keep_it = match self.bound_value(r) {
                Some(v) => !Allocator::holds_value(values, v),
                None => true,
            };
            if keep_it {
                replacement_regs.push(r);
            }
            proof {
                let t = prio@.take(i + 1);
                assert(t.drop_last() == prio@.take(i as int));
                assert(t.last() == r);
                assert(keep(t, reserved) == (if reserved(r) { prev.push(r) } else { prev }));
            }
            i = i + 1;
        }
        assert(prio@.take(prio.len() as int) == prio@);
        let mut unbound_values: Vec<JITValue> = Vec::new();
        let mut j: usize = 0;
        while j < values.len()
            invariant
                0 <= j <= values.len(),
                self.wf(),
                b == self.bindings(),
                unbound_values@ == keep(values@.take(j as int), unbound),
                forall|v: JITValue| #[trigger] unbound(v) == !is_bound(b, v),
            decreases values.len() - j,
        {
            let v = values[j];
            let ghost prev = unbound_values@;
            if self.bound_reg(v).is_none() {
                unbound_values.push(v);
            }
            proof {
                let t = values@.take(j + 1);
                assert(t.drop_last() == values@.take(j as int));
                assert(t.last() == v);
                assert(keep(t, unbound) == (if unbound(v) { prev.push(v) } else { prev }));
            }
            j = j + 1;
        }
        assert(values@.take(values.len() as int) == values@);
        let ghost un = unbound_values@;
        let ghost repl = replacement_regs@;
        let mut transfers: Vec<Transfer> = Vec::new();
        let mut k: usize = 0;
        while k < unbound_values.len()
            invariant
                0 <= k <= unbound_values.len(),
                un == unbound_values@,
                repl == replacement_regs@,
                un.len() <= repl.len(),
                self.wf(),
                self.same_frame(*old(self)),
                self.bindings() == bind_steps(b, un.take(k as int), repl),
                transfers@ == bind_moves(b, un.take(k as int), repl),
            decreases un.len() - k,
        {
            let v = unbound_values[k];
            let replacement_reg = replacement_regs[k];
            let ghost before = self.bindings();
            match self.bound_value(replacement_reg) {
                Some(prev_value) => {
                    transfers.push(
                        Transfer {
                            reg: replacement_reg,
                            other: GenericValue::JITValue(prev_value),
                            dir: Direction::FromReg,
                        },
                    );
                },
                None => {},
            }
            self.bind_raw(replacement_reg, v);
            transfers.push(
                Transfer { reg: replacement_reg, other: GenericValue::JITValue(v), dir: Direction::ToReg },
            );
            proof {
                let t1 = un.take(k + 1);
                assert(t1.drop_last() == un.take(k as int));
                assert(t1.last() == v);
                assert(t1.len() == k + 1);
                assert(repl[t1.len() - 1] == replacement_reg);
                assert(self.bindings() == bind_steps(b, t1, repl));
                assert(transfers@ =~= bind_moves(b, t1, repl));
            }
            k = k + 1;
        }
        assert(un.take(un.len() as int) == un);
        MultiTransfer(transfers)
    }
}

impl Allocator {
    /// Drops the bindings of emulator registers; the moves store each of
    /// them to its home, once each, in the order of the register map.
    pub fn unbind_emu_regs(&mut self) -> (t: MultiTransfer)
        requires
            old(self).wf(),
        ensures
            final(self).wf(),
            final(self).same_frame(*old(self)),
            final(self).bindings() == without_emu(old(self).bindings()),
            t.spec_moves().no_duplicates(),
            forall|i: int|
                0 <= i < t.spec_moves().len() ==> {
                    let m = #[trigger] t.spec_moves()[i];
                    &&& m.dir == Direction::FromReg
                    &&& old(self).bindings().contains_key(m.reg)
                    &&& old(self).bindings()[m.reg] is EmuReg
                    &&& m.other == GenericValue::JITValue(old(self).bindings()[m.reg])
                },
            forall|r: X64Reg|
                #[trigger] old(self).bindings().contains_key(r) && old(self).bindings()[r] is EmuReg
                    ==> t.spec_moves().contains(
                    Transfer {
                        reg: r,
                        other: GenericValue::JITValue(old(self).bindings()[r]),
                        dir: Direction::FromReg,
                    },
                ),
    {
        let ghost b = self.bindings();
        let pairs = self.binding_pairs();
        let mut transfers: Vec<Transfer> = Vec::new();
        let ghost mut src: Seq<int> = Seq::empty();
        let mut i: usize = 0;
        while i < pairs.len()
            invariant
                0 <= i <= pairs.len(),
                b == self.bindings(),
                pairs@.no_duplicates(),
                forall|j: int|
                    0 <= j < pairs.len() ==> b.contains_key((#[trigger] pairs@[j]).0) && b[pairs@[j].0]
                        == pairs@[j].1,
                src.len() == transfers.len(),
                forall|a: int|
                    0 <= a < src.len() ==> 0 <= #[trigger] src[a] < i && pairs@[src[a]].1 is EmuReg
                        && transfers@[a] == (Transfer {
                        reg: pairs@[src[a]].0,
                        other: GenericValue::JITValue(pairs@[src[a]].1),
                        dir: Direction::FromReg,
                    }),
                forall|a: int, c: int| 0 <= a < c < src.len() ==> #[trigger] src[a] < #[trigger] src[c],
                forall|j: int|
                    0 <= j < i && (#[trigger] pairs@[j]).1 is EmuReg ==> exists|a: int|
                        0 <= a < src.len() && #[trigger] src[a] == j,
            decreases pairs.len() - i,
        {
            let (x64_reg, value) = pairs[i];
            let ghost old_src = src;
            match value {
                JITValue::EmuReg(_) => {
                    transfers.push(
                        Transfer { reg: x64_reg, other: GenericValue::JITValue(value), dir: Direction::FromReg },
                    );
                    proof {
                        src = src.push(i as int);
                        assert(src[src.len() - 1] == i);
                    }
                },
                _ => {},
            }
            proof {
                assert forall|j: int|
                    0 <= j < i + 1 && (#[trigger] pairs@[j]).1 is EmuReg implies exists|a: int|
                        0 <= a < src.len() && #[trigger] src[a] == j by {
                    if j == i {
                        assert(src[src.len() - 1] == j);
                    } else {
                        let a = choose|a: int| 0 <= a < old_src.len() && #[trigger] old_src[a] == j;
                        assert(src[a] == old_src[a]);
                    }
                }
            }
            i = i + 1;
        }
        proof {
            assert forall|a: int| 0 <= a < transfers.len() implies {
                let m = #[trigger] transfers@[a];
                &&& m.dir == Direction::FromReg
                &&& b.contains_key(m.reg)
                &&& b[m.reg] is EmuReg
                &&& m.other == GenericValue::JITValue(b[m.reg])
            } by {
                let p = pairs@[src[a]];
                assert(b.contains_key(p.0) && b[p.0] == p.1);
            }
            assert forall|a: int, c: int|
                0 <= a < transfers.len() && 0 <= c < transfers.len() && a != c implies transfers@[a]
                != transfers@[c] by {
                if transfers@[a] == transfers@[c] {
                    assert(pairs@[src[a]] == pairs@[src[c]]);
                    if a < c {
                        assert(src[a] < src[c]);
                    } else {
                        assert(src[c] < src[a]);
                    }
                }
            }
            assert forall|r: X64Reg| #[trigger] b.contains_key(r) && b[r] is EmuReg implies transfers@.contains(
                Transfer { reg: r, other: GenericValue::JITValue(b[r]), dir: Direction::FromReg },
            ) by {
                assert(pairs@.contains((r, b[r])));
                let j = choose|j: int| 0 <= j < pairs.len() && pairs@[j] == (r, b[r]);
                assert(pairs@[j].1 is EmuReg);
                let a = choose|a: int| 0 <= a < src.len() && #[trigger] src[a] == j;
                assert(transfers@[a] == Transfer {
                    reg: r,
                    other: GenericValue::JITValue(b[r]),
                    dir: Direction::FromReg,
                });
            }
        }
        self.retain_non_emu();
        assert(self.bindings() =~= without_emu(b));
        MultiTransfer(transfers)
    }

    /// Moves the value bound to `reg`, if any, into the first register in
    /// priority order, exchanging the two registers' bindings. The move is an
    /// exchange of the two registers.
    pub fn swap_binding(&mut self, reg: X64Reg) -> (t: MultiTransfer)
        requires
            old(self).wf(),
            old(self).bindings().contains_key(reg) ==> spec_prioritized(old(self).bindings()).len() > 0,
        ensures
            final(self).wf(),
            final(self).same_frame(*old(self)),
            old(self).bindings().contains_key(reg) ==> final(self).bindings() == swapped(
                old(self).bindings(),
                reg,
                spec_prioritized(old(self).bindings())[0],
            ) && t.spec_moves() == seq![
                Transfer {
                    reg: reg,
                    other: GenericValue::X64Reg(spec_prioritized(old(self).bindings())[0]),
                    dir: Direction::FromReg,
                },
            ],
            !old(self).bindings().contains_key(reg) ==> final(self).bindings() == old(self).bindings()
                && t.spec_moves() == Seq::<Transfer>::empty(),
    {
        let ghost b = self.bindings();
        proof {
            self.lemma_wf_injective();
        }
        match self.bound_value(reg) {
            Some(value) => {
                let prio = self.prioritized_regs();
                let other_reg = prio[0];
                let transfers = vec![
                    Transfer { reg: reg, other: GenericValue::X64Reg(other_reg), dir: Direction::FromReg },
                ];
                let other_val = self.bound_value(other_reg);
                self.bind_raw(other_reg, value);
                match other_val {
                    Some(other_val) => {
                        self.bind_raw(reg, other_val);
                    },
                    None => {
                        self.unbind_raw(reg);
                    },
                }
                proof {
                    if other_reg != reg {
                        lemma_swap_steps(b, reg, other_reg);
                    } else {
                        assert(bind_in(b, reg, b[reg]) =~= b);
                        assert(swapped(b, reg, reg) =~= b);
                    }
                }
                MultiTransfer(transfers)
            },
            None => MultiTransfer(Vec::new()),
        }
    }

    /// Exchanges the bindings of `reg1` and `reg2`; the move is an exchange
    /// of the two registers. Nothing happens when they are the same.
    pub fn swap_specific_bindings(&mut self, reg1: X64Reg, reg2: X64Reg) -> (t: MultiTransfer)
        requires
            old(self).wf(),
        ensures
            final(self).wf(),
            final(self).same_frame(*old(self)),
            final(self).bindings() == swapped(old(self).bindings(), reg1, reg2),
            t.spec_moves() == (if reg1 != reg2 {
                seq![
                    Transfer { reg: reg1, other: GenericValue::X64Reg(reg2), dir: Direction::FromReg },
                ]
            } else {
                Seq::<Transfer>::empty()
            }),
    {
        let ghost b = self.bindings();
        proof {
            self.lemma_wf_injective();
        }
        if reg1 != reg2 {
            let val1 = self.bound_value(reg1);
            let val2 = self.bound_value(reg2);
            match val1 {
                Some(val1) => {
                    self.bind_raw(reg2, val1);
                },
                None => {
                    self.unbind_raw(reg2);
                },
            }
            match val2 {
                Some(val2) => {
                    self.bind_raw(reg1, val2);
                },
                None => {
                    self.unbind_raw(reg1);
                },
            }
            proof {
                lemma_swap_steps(b, reg1, reg2);
            }
            MultiTransfer(vec![
                Transfer { reg: reg1, other: GenericValue::X64Reg(reg2), dir: Direction::FromReg },
            ])
        } else {
            assert(swapped(b, reg1, reg2) =~= b);
            MultiTransfer(Vec::new())
        }
    }
}

impl Allocator {
    /// Whether `reg` holds a value.
    pub fn contains_reg(&self, reg: &X64Reg) -> (b: bool)
        requires
            self.wf(),
        ensures
            b == self.bindings().contains_key(*reg),
    {
        self.bound_value(*reg).is_some()
    }

    /// Drops the binding of `reg`; the move stores what it held, if anything.
    pub fn unbind_x64_reg(&mut self, reg: X64Reg) -> (t: MultiTransfer)
        requires
            old(self).wf(),
        ensures
            final(self).wf(),
            final(self).same_frame(*old(self)),
            final(self).bindings() == old(self).bindings().remove(reg),
            t.spec_moves() == spill(old(self).bindings(), reg),
    {
        let mut transfers: Vec<Transfer> = Vec::new();
        match self.bound_value(reg) {
            Some(value) => {
                transfers.push(
                    Transfer { reg: reg, other: GenericValue::JITValue(value), dir: Direction::FromReg },
                );
                self.unbind_raw(reg);
            },
            None => {
                assert(old(self).bindings().remove(reg) =~= old(self).bindings());
            },
        }
        assert(transfers@ =~= spill(old(self).bindings(), reg));
        MultiTransfer(transfers)
    }
}

} // verus!
