//! The boundary to `std::any`: type identities and type-erased boxes.
//!
//! Everything in this file that carries `external_body` is believed, not proved.

use std::any::Any;
use std::any::TypeId;
use vstd::prelude::*;

verus! {

/// `std::any::TypeId`, carried through as an opaque token.
#[verifier::external_type_specification]
#[verifier::external_body]
pub struct ExTypeId(TypeId);

/// An owned value whose concrete type is hidden: a `Box<dyn Any>`.
///
/// Verus has no account of `dyn Any`, so the box is kept out of its sight. In
/// contracts an erased value is known by its tag ([`erased_tag`]) and by the data of
/// the value inside ([`erased_plain`]).
#[verifier::external_body]
#[derive(Debug)]
pub struct Erased {
    inner: Box<dyn Any>,
}

/// The data of a value, as contracts see it: a sequence of integers.
pub type Plain = Seq<int>;

/// A type whose values can be kept in the store.
///
/// An impl makes two promises that Verus cannot hold it to.
///
/// - `plain` is the data that the value carries at run time, written out as
///   integers: what contracts know of a value once it has been put away. It speaks
///   of nothing that exists only in proofs. Contracts on the store relate what goes
///   in and what comes out by this data, so whatever `plain` leaves out of a value
///   is not known of the value that comes back.
/// - The impl covers no two types that differ only in lifetimes. Verus drops
///   lifetimes and takes such types for one, while at run time each has an identity
///   of its own. So an impl is written for a named type, or is generic over `Sized`
///   parameters that are `Storable` themselves: never over a `?Sized` parameter, a
///   `dyn` type or a function pointer.
pub trait Storable: Sized + 'static {
    /// The run-time data of the value.
    spec fn plain(&self) -> Plain;
}

/// The identity of the type `T`: one token per type, the same wherever it is asked
/// for.
///
/// Verus has no notion of a type's identity, so the definition only singles out one
/// unspecified token for each `T`. What is believed of it is what [`type_id_of`] and
/// the functions of [`Erased`] state, and nothing else: in particular nothing here
/// says that two types have different tokens. It is the identity that the type has
/// at run time only for the types that `Storable` is meant for, on which Verus and
/// Rust agree what one type is: two types that differ only in lifetimes are one
/// `T` here and two at run time.
pub closed spec fn type_key<T: Storable>() -> TypeId {
    arbitrary::<spec_fn(Option<T>) -> TypeId>()(None)
}

/// The identity of the type of the value inside `e`: what `Any::type_id` reports
/// for the boxed value.
pub uninterp spec fn erased_tag(e: Erased) -> TypeId;

/// The run-time data of the value inside `e`: its `plain`, taken at the type that
/// the box was made with.
pub uninterp spec fn erased_plain(e: Erased) -> Seq<int>;

/// `TypeId::of::<T>()`. Trusted: the result is the identity of `T`, and so the same
/// on every call. This holds of the types that `Storable` is meant for; of two
/// types that differ only in lifetimes it is false, which is why the bound is there.
#[verifier::external_body]
pub(crate) fn type_id_of<T: Storable>() -> (id: TypeId)
    ensures
        id == type_key::<T>(),
{
    TypeId::of::<T>()
}

/// `==` on `TypeId`. Trusted: two tokens compare equal exactly when they are the
/// same token.
#[verifier::external_body]
pub(crate) fn same_id(a: &TypeId, b: &TypeId) -> (r: bool)
    ensures
        r == (*a == *b),
{
    a == b
}

/// Whether `A` and `B` are one and the same type. This is how a caller learns that
/// two types have different identities.
pub fn same_type<A: Storable, B: Storable>() -> (r: bool)
    ensures
        r == (type_key::<A>() == type_key::<B>()),
{
    let a = type_id_of::<A>();
    let b = type_id_of::<B>();
    same_id(&a, &b)
}

impl Erased {
    /// `Box::new(t)`, unsized to `Box<dyn Any>`. Trusted: the box is tagged with the
    /// identity of `T` and carries the data of `t`.
    #[verifier::external_body]
    pub(crate) fn new<T: Storable>(t: T) -> (e: Erased)
        ensures
            erased_tag(e) == type_key::<T>(),
            erased_plain(e) == t.plain(),
    {
        Erased { inner: Box::new(t) }
    }

    /// `<dyn Any>::downcast_ref::<T>`. Trusted: it succeeds exactly when the tag is
    /// the identity of `T`, and then hands out the value inside, whose data is that
    /// of the box.
    #[verifier::external_body]
    pub(crate) fn downcast_ref<T: Storable>(&self) -> (r: Option<&T>)
        ensures
            r.is_some() <==> erased_tag(*self) == type_key::<T>(),
            r.is_some() ==> r.unwrap().plain() == erased_plain(*self),
    {
        self.inner.downcast_ref::<T>()
    }

    /// `<dyn Any>::downcast_mut::<T>`. Trusted: it succeeds exactly when the tag is
    /// the identity of `T`; the reference then starts at the value inside, and when
    /// it is given back the box has the same tag and carries the data of what was
    /// last written. On failure the box is untouched.
    #[verifier::external_body]
    pub(crate) fn downcast_mut<T: Storable>(&mut self) -> (r: Option<&mut T>)
        ensures
            r.is_some() <==> erased_tag(*old(self)) == type_key::<T>(),
            r.is_some() ==> r.unwrap().plain() == erased_plain(*old(self))
                && erased_tag(*final(self)) == erased_tag(*old(self))
                && erased_plain(*final(self)) == final(r.unwrap()).plain(),
            r.is_none() ==> *final(self) == *old(self),
    {
        self.inner.downcast_mut::<T>()
    }

    /// `Box<dyn Any>::downcast::<T>`, unboxed. Trusted: it succeeds exactly when the
    /// tag is the identity of `T`, and then returns the value inside, whose data is
    /// that of the box.
    #[verifier::external_body]
    pub(crate) fn downcast<T: Storable>(self) -> (r: Option<T>)
        ensures
            r.is_some() <==> erased_tag(self) == type_key::<T>(),
            r.is_some() ==> r.unwrap().plain() == erased_plain(self),
    {
        match self.inner.downcast::<T>() {
            Ok(b) => Some(*b),
            Err(_) => None,
        }
    }
}

} // verus!
