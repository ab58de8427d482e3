//! What holds of the store's operations taken together.
//!
//! Values are told apart by their data, the `plain` of [`crate::erased::Storable`].
//! Each law speaks of models, the maps that the operations' contracts are stated
//! over: `put` and a successful `try_borrow_mut` relate the model before and after
//! by [`stored`], `try_take` and `take` by [`removed`]; `has` reports [`holds`], the
//! `try_` functions return [`lookup`] and the others hand out [`plain_of`].

use crate::erased::{type_key, Storable};
use crate::store::{holds, lookup, plain_of, removed, stored, Model};
use vstd::prelude::*;

verus! {

/// After a value has been put in, its type is present and the data read back is
/// that of the value that was put.
pub proof fn lemma_put_then_present<T: Storable>(before: Model, after: Model, p: Seq<int>)
    requires
        stored::<T>(before, after, p),
    ensures
        holds::<T>(after),
        plain_of::<T>(after) == p,
{
}

/// Putting twice for one type leaves one entry for it, which carries the second value:
/// the outcome is what putting the second value alone would have given.
pub proof fn lemma_put_overwrites<T: Storable>(
    start: Model,
    middle: Model,
    end: Model,
    p1: Seq<int>,
    p2: Seq<int>,
)
    requires
        stored::<T>(start, middle, p1),
        stored::<T>(middle, end, p2),
    ensures
        plain_of::<T>(end) == p2,
        end.dom() == middle.dom(),
        stored::<T>(start, end, p2),
{
    let k = type_key::<T>();
    assert(end.dom() =~= middle.dom());
    assert(end =~= start.insert(k, end[k]));
}

/// Putting a value of one type touches no other type: whether a value of a
/// different type is present, and which, stays as it was.
pub proof fn lemma_put_keeps_other_types<T: Storable, U: Storable>(
    before: Model,
    after: Model,
    p: Seq<int>,
)
    requires
        type_key::<T>() != type_key::<U>(),
        stored::<T>(before, after, p),
    ensures
        holds::<U>(after) == holds::<U>(before),
        holds::<U>(before) ==> plain_of::<U>(after) == plain_of::<U>(before),
{
}

/// Taking the value of one type touches no other type.
pub proof fn lemma_take_keeps_other_types<T: Storable, U: Storable>(before: Model, after: Model)
    requires
        type_key::<T>() != type_key::<U>(),
        removed::<T>(before, after),
    ensures
        holds::<U>(after) == holds::<U>(before),
        holds::<U>(before) ==> plain_of::<U>(after) == plain_of::<U>(before),
{
}

/// Looking for a type finds nothing exactly when the type is absent, and otherwise
/// finds the value kept for it.
pub proof fn lemma_lookup_none_iff_absent<T: Storable>(m: Model)
    ensures
        lookup::<T>(m).is_none() <==> !holds::<T>(m),
        holds::<T>(m) ==> lookup::<T>(m) == Some(plain_of::<T>(m)),
{
}

/// Once the value of a type has been taken, the type is absent: looking for it
/// finds nothing, and taking again changes nothing.
pub proof fn lemma_take_then_absent<T: Storable>(before: Model, after: Model)
    requires
        removed::<T>(before, after),
    ensures
        !holds::<T>(after),
        lookup::<T>(after).is_none(),
        removed::<T>(after, after),
{
    assert(after.remove(type_key::<T>()) =~= after);
}

/// Putting a value adds one to the number of entries where its type was absent, and
/// leaves the number as it was where the type was present.
pub proof fn lemma_put_counts<T: Storable>(before: Model, after: Model, p: Seq<int>)
    requires
        before.dom().finite(),
        stored::<T>(before, after, p),
    ensures
        after.dom().finite(),
        after.dom().len() == before.dom().len() + (if holds::<T>(before) { 0nat } else { 1nat }),
{
    assert(after.dom() =~= before.dom().insert(type_key::<T>()));
}

/// Taking a value takes one from the number of entries where its type was present,
/// and leaves the number as it was where the type was absent.
pub proof fn lemma_take_counts<T: Storable>(before: Model, after: Model)
    requires
        before.dom().finite(),
        removed::<T>(before, after),
    ensures
        after.dom().finite(),
        after.dom().len() == before.dom().len() - (if holds::<T>(before) { 1nat } else { 0nat }),
{
    assert(after.dom() =~= before.dom().remove(type_key::<T>()));
}

/// A store that starts empty has no entry; after one value is put in it has one;
/// after that value is taken it is empty again.
pub proof fn lemma_put_take_from_empty<T: Storable>(one: Model, back: Model, p: Seq<int>)
    requires
        stored::<T>(Model::empty(), one, p),
        removed::<T>(one, back),
    ensures
        Model::empty().dom().len() == 0,
        one.dom().finite() && one.dom().len() == 1,
        back == Model::empty(),
{
    lemma_put_counts::<T>(Model::empty(), one, p);
    assert(back =~= Model::empty());
}

} // verus!
