//! The mapping from a type to its partial ("optioned") counterpart, and the
//! conversions between the two.

use crate::error::Error;
use vstd::prelude::*;

verus! {

/// Associates a type with the type in which its inner fields are recursively
/// optional, as far as that makes sense for the type.
///
/// An `Option<T::Optioned>` is meant to express every state of a `T` between absent
/// and complete. A type without inner structure, such as `i32`, is its own optioned
/// type: `Option<i32>` already says all there is to say.
pub trait Optionable {
    /// The type with the fields made optional.
    type Optioned;
}

/// Conversions from a full value to its optioned form and back, and merging of an
/// optioned value into a full one.
///
/// What the three operations do for a type is stated by three relations, which an
/// implementation defines together with the operations. Where an implementation
/// leaves a relation as it is here, nothing is claimed of that operation.
pub trait OptionableConvert: Sized + Optionable {
    /// `opt` is the optioned form of `full` with every field set.
    open spec fn optioned_form(full: Self, opt: Self::Optioned) -> bool {
        true
    }

    /// `res` is an outcome of rebuilding a full value from `value`: the value that
    /// `value` holds, or the report of what it lacks.
    open spec fn rebuilt(value: Self::Optioned, res: Result<Self, Error>) -> bool {
        true
    }

    /// `after` and `res` are an outcome of merging `other` into `before`.
    open spec fn merged(
        before: Self,
        other: Self::Optioned,
        after: Self,
        res: Result<(), Error>,
    ) -> bool {
        true
    }

    /// Transforms the value into its optioned form, with every field set.
    fn into_optioned(self) -> (opt: Self::Optioned)
        ensures
            Self::optioned_form(self, opt),
    ;

    /// Tries to build the full value from an optioned one. Fails where fields that
    /// the full value needs are not set, and names them.
    fn try_from_optioned(value: Self::Optioned) -> (res: Result<Self, Error>)
        ensures
            Self::rebuilt(value, res),
    ;

    /// Merges the optioned value into this full value. Sequences and sets are
    /// replaced by what `other` holds; maps are merged key by key. A merge that
    /// fails half way is not rolled back.
    fn merge(&mut self, other: Self::Optioned) -> (res: Result<(), Error>)
        ensures
            Self::merged(*old(self), other, *final(self), res),
    ;
}

/// Whether a full value can be rebuilt from `value`.
pub open spec fn can_rebuild<T: OptionableConvert>(value: T::Optioned) -> bool {
    exists|full: T| T::rebuilt(value, Ok(full))
}

/// Whether `full` survives the way into its optioned form and back: whatever
/// optioned form it is given, rebuilding from that form can only give `full` again.
pub open spec fn round_trips<T: OptionableConvert>(full: T) -> bool {
    forall|opt: T::Optioned, res: Result<T, Error>|
        T::optioned_form(full, opt) && #[trigger] T::rebuilt(opt, res) ==> res == Ok::<T, Error>(
            full,
        )
}

/// A type without inner structure: it is its own optioned type, and each of its
/// conversions hands its argument back.
pub trait Leaf: OptionableConvert<Optioned = Self> {
    /// The relations of a leaf type say that the conversions are the identity and
    /// that a merge overwrites.
    proof fn leaf_relations()
        ensures
            forall|full: Self, opt: Self| #[trigger] Self::optioned_form(full, opt) <==> opt == full,
            forall|value: Self, res: Result<Self, Error>| #[trigger]
                Self::rebuilt(value, res) <==> res == Ok::<Self, Error>(value),
            forall|before: Self, other: Self, after: Self, res: Result<(), Error>| #[trigger]
                Self::merged(before, other, after, res) <==> res is Ok && after == other,
    ;
}

/// Round-trip law of the leaf types: the optioned form of a leaf value is the value
/// itself, and rebuilding from it succeeds with that value.
pub proof fn lemma_leaf_round_trip<T: Leaf>(full: T)
    ensures
        T::optioned_form(full, full),
        T::rebuilt(full, Ok(full)),
        round_trips(full),
{
    T::leaf_relations();
}

} // verus!
