//! The register map: a bidirectional map from host register numbers to the
//! values bound to them, held in a `bimap::BiHashMap`.
//!
//! Keys and values are plain integers (a register's encoding number, and a
//! tuple that stands for a `JITValue`), so that equality and hashing are those
//! that std documents for integers and tuples.

use vstd::prelude::*;
use bimap::BiHashMap;

verus! {

/// The integers that stand for a bound value: a tag (`0` for an emulator
/// register, `1` for a variable, `2` for saved flags, `3` for a delayed
/// write), then the emulator register's name, the stack position and the
/// size, and the place in the queue.
pub type ValueKey = (u8, u32, i32, i32, usize);

/// A register map: host register numbers on the left, bound values on the
/// right.
pub type RegMap = BiHashMap<u8, ValueKey>;

#[verifier::external_type_specification]
#[verifier::external_body]
#[verifier::reject_recursive_types(L)]
#[verifier::reject_recursive_types(R)]
#[verifier::reject_recursive_types(LS)]
#[verifier::reject_recursive_types(RS)]
pub struct ExBiHashMap<L, R, LS, RS>(bimap::BiHashMap<L, R, LS, RS>);

/// The pairs that a register map holds, by left value.
pub uninterp spec fn bimap_contents(m: RegMap) -> Map<
    u8,
    ValueKey,
>;

/// `m` without any pair whose right value is `r`.
pub open spec fn without_right(m: Map<u8, ValueKey>, r: ValueKey) -> Map<
    u8,
    ValueKey,
> {
    Map::new(|l: u8| m.contains_key(l) && m[l] != r, |l: u8| m[l])
}

/// The map with no pairs.
pub open spec fn no_pairs() -> Map<u8, ValueKey> {
    Map::empty()
}

/// Whether a right value is kept when the emulator registers are unbound:
/// it does not stand for an emulator register.
pub fn key_is_kept(key: &ValueKey) -> (b: bool)
    ensures
        b == (key.0 != 0),
{
    key.0 != 0
}

/// `m` without the pairs whose right value stands for an emulator register.
pub open spec fn without_emu_regs(m: Map<u8, ValueKey>) -> Map<u8, ValueKey> {
    Map::new(|l: u8| m.contains_key(l) && m[l].0 != 0, |l: u8| m[l])
}

/// `BiHashMap::new`: an empty map.
#[verifier::external_body]
pub(crate) fn bimap_new() -> (r: RegMap)
    ensures
        bimap_contents(r) == no_pairs(),
{
    BiHashMap::new()
}

/// `BiHashMap::get_by_left`: the right value paired with `l`, if any.
#[verifier::external_body]
pub(crate) fn bimap_get_by_left(m: &RegMap, l: u8) -> (r: Option<
    ValueKey,
>)
    ensures
        r == (if bimap_contents(*m).contains_key(l) {
            Some(bimap_contents(*m)[l])
        } else {
            None
        }),
{
    m.get_by_left(&l).copied()
}

/// `BiHashMap::get_by_right`: the left value paired with `r`, if any.
#[verifier::external_body]
pub(crate) fn bimap_get_by_right(m: &RegMap, r: ValueKey) -> (l:
    Option<u8>)
    ensures
        match l {
            Some(l) => bimap_contents(*m).contains_key(l) && bimap_contents(*m)[l] == r,
            None => forall|k: u8|
                #[trigger] bimap_contents(*m).contains_key(k) ==> bimap_contents(*m)[k] != r,
        },
{
    m.get_by_right(&r).copied()
}

/// `BiHashMap::insert`: pairs `l` with `r`, after removing any pair that
/// holds `l` on the left or `r` on the right.
#[verifier::external_body]
pub(crate) fn bimap_insert(m: &mut RegMap, l: u8, r: ValueKey)
    ensures
        bimap_contents(*final(m)) == without_right(bimap_contents(*old(m)), r).insert(l, r),
{
    m.insert(l, r);
}

/// `BiHashMap::remove_by_left`: removes the pair that holds `l`, if any.
#[verifier::external_body]
pub(crate) fn bimap_remove_by_left(m: &mut RegMap, l: u8)
    ensures
        bimap_contents(*final(m)) == bimap_contents(*old(m)).remove(l),
{
    m.remove_by_left(&l);
}

/// `BiHashMap::iter`: every pair, once each, in an order that the map's
/// hashing decides.
#[verifier::external_body]
pub(crate) fn bimap_pairs(m: &RegMap) -> (v: Vec<(u8, ValueKey)>)
    ensures
        v@.no_duplicates(),
        forall|i: int|
            0 <= i < v.len() ==> bimap_contents(*m).contains_key((#[trigger] v@[i]).0)
                && bimap_contents(*m)[v@[i].0] == v@[i].1,
        forall|l: u8|
            #[trigger] bimap_contents(*m).contains_key(l) ==> v@.contains((l, bimap_contents(*m)[l])),
{
    m.iter().map(|(l, r)| (*l, *r)).collect()
}

/// `BiHashMap::retain`, keeping the pairs whose right value does not stand
/// for an emulator register.
#[verifier::external_body]
pub(crate) fn bimap_retain_non_emu(m: &mut RegMap)
    ensures
        bimap_contents(*final(m)) == without_emu_regs(bimap_contents(*old(m))),
{
    m.retain(|_, r| key_is_kept(r));
}

} // verus!
