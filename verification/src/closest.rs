//! The holder of the nearest contact: a `BestMap` that keeps, of the
//! contacts offered to it, the one with the least squared distance.
//!
//! Verus does not read the holder's code. What this file says of it is taken
//! on trust from its source, and the selection in [`crate::game`] is proved
//! from that.
use best::BestMap;
use vstd::prelude::*;

verus! {

/// `best::BestMap`, a key with a value or nothing; opaque to Verus.
#[verifier::external_type_specification]
#[verifier::external_body]
#[verifier::reject_recursive_types(K)]
#[verifier::reject_recursive_types(V)]
pub struct ExBestMap<K, V>(best::BestMap<K, V>);

/// What a holder of squared distances and indices holds: no entry, or the
/// one distance that it kept with its index.
pub uninterp spec fn kept(holder: BestMap<i64, usize>) -> Seq<(i64, usize)>;

/// `BestMap::new`: a holder that holds nothing.
#[verifier::external_body]
pub(crate) fn holder_new() -> (holder: BestMap<i64, usize>)
    ensures
        kept(holder) == Seq::<(i64, usize)>::empty(),
{
    BestMap::new()
}

/// `BestMap::insert_le`: an empty holder takes the entry; a holder that has
/// one replaces it where the new key is less than or equal to the key that
/// it holds, and keeps it where the new key is greater.
#[verifier::external_body]
pub(crate) fn holder_insert_le(holder: &mut BestMap<i64, usize>, key: i64, value: usize)
    ensures
        kept(*final(holder)) == if kept(*old(holder)).len() == 0 {
            seq![(key, value)]
        } else if key <= kept(*old(holder))[0].0 {
            seq![(key, value)]
        } else {
            kept(*old(holder))
        },
{
    holder.insert_le(key, value)
}

/// `BestMap::into_value`: the value that the holder holds, if it holds one.
#[verifier::external_body]
pub(crate) fn holder_into_value(holder: BestMap<i64, usize>) -> (value: Option<usize>)
    ensures
        value == if kept(holder).len() == 0 {
            None
        } else {
            Some(kept(holder)[0].1)
        },
{
    holder.into_value()
}

} // verus!
