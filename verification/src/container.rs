//! The containers of one element type. The optioned type of a container is the same
//! container over the optioned element type. Its conversions go element by element,
//! and a merge replaces the whole container by what the optioned value holds.

use crate::convert::{can_rebuild, round_trips, Optionable, OptionableConvert};
use crate::error::Error;
use std::collections::VecDeque;
use vstd::prelude::*;

verus! {

/// `opt` holds, place by place, the optioned forms of the elements of `full`.
pub open spec fn seq_optioned_form<T: OptionableConvert>(
    full: Seq<T>,
    opt: Seq<T::Optioned>,
) -> bool {
    &&& opt.len() == full.len()
    &&& forall|i: int| 0 <= i < full.len() ==> T::optioned_form(full[i], #[trigger] opt[i])
}

/// `res` is an outcome of rebuilding the elements of `value` one after the other:
/// either every element was rebuilt, place by place, or the report is that of the
/// first element that could not be, all elements before it having been rebuilt.
pub open spec fn seq_rebuilt<T: OptionableConvert>(
    value: Seq<T::Optioned>,
    res: Result<Seq<T>, Error>,
) -> bool {
    match res {
        Ok(full) => {
            &&& full.len() == value.len()
            &&& forall|i: int|
                0 <= i < value.len() ==> T::rebuilt(value[i], Ok(#[trigger] full[i]))
        },
        Err(e) => seq_fails_with::<T>(value, e),
    }
}

/// `e` reports the first element of `value` that cannot be rebuilt: it is a report
/// for some element, and every element before that one can be rebuilt.
pub open spec fn seq_fails_with<T: OptionableConvert>(value: Seq<T::Optioned>, e: Error) -> bool {
    exists|i: int|
        0 <= i < value.len() && #[trigger] T::rebuilt(value[i], Err(e)) && forall|k: int|
            0 <= k < i ==> can_rebuild::<T>(#[trigger] value[k])
}

/// `after` and `res` are an outcome of replacing the elements `before` by what can
/// be rebuilt from `other`: on success `after` is what was rebuilt, on failure
/// nothing has changed.
pub open spec fn seq_overwritten<T: OptionableConvert>(
    before: Seq<T>,
    other: Seq<T::Optioned>,
    after: Seq<T>,
    res: Result<(), Error>,
) -> bool {
    match res {
        Ok(_) => seq_rebuilt::<T>(other, Ok(after)),
        Err(e) => seq_rebuilt::<T>(other, Err(e)) && after == before,
    }
}

/// Round-trip law of the sequences: where every element of `full` round-trips,
/// rebuilding from an optioned form of `full` can only succeed, with the elements
/// of `full` in their places.
pub proof fn lemma_seq_round_trip<T: OptionableConvert>(
    full: Seq<T>,
    opt: Seq<T::Optioned>,
    res: Result<Seq<T>, Error>,
)
    requires
        forall|i: int| 0 <= i < full.len() ==> round_trips(#[trigger] full[i]),
        seq_optioned_form(full, opt),
        seq_rebuilt(opt, res),
    ensures
        res == Ok::<Seq<T>, Error>(full),
{
    match res {
        Ok(back) => {
            assert forall|i: int| 0 <= i < full.len() implies back[i] == full[i] by {
                assert(round_trips(full[i]));
                assert(T::optioned_form(full[i], opt[i]));
                assert(T::rebuilt(opt[i], Ok(back[i])));
            }
            assert(back =~= full);
        },
        Err(e) => {
            let i = choose|i: int|
                0 <= i < opt.len() && #[trigger] T::rebuilt(opt[i], Err(e)) && forall|k: int|
                    0 <= k < i ==> can_rebuild::<T>(#[trigger] opt[k]);
            assert(round_trips(full[i]));
            assert(T::optioned_form(full[i], opt[i]));
        },
    }
}

/// The outcome of rebuilding a container, as an outcome over its elements.
pub open spec fn elements<C: View>(res: Result<C, Error>) -> Result<C::V, Error> {
    match res {
        Ok(full) => Ok(full@),
        Err(e) => Err(e),
    }
}

impl<T: Optionable> Optionable for Vec<T> {
    type Optioned = Vec<T::Optioned>;
}

impl<T: OptionableConvert> OptionableConvert for Vec<T> {
    open spec fn optioned_form(full: Self, opt: Self::Optioned) -> bool {
        seq_optioned_form(full@, opt@)
    }

    open spec fn rebuilt(value: Self::Optioned, res: Result<Self, Error>) -> bool {
        seq_rebuilt(value@, elements(res))
    }

    open spec fn merged(
        before: Self,
        other: Self::Optioned,
        after: Self,
        res: Result<(), Error>,
    ) -> bool {
        seq_overwritten(before@, other@, after@, res)
    }

    fn into_optioned(self) -> (opt: Self::Optioned) {
        let ghost full = self@;
        let mut opt: Vec<T::Optioned> = Vec::new();
        for element in it: self
            invariant
                it.seq() == full,
                opt@.len() == it.index(),
                forall|i: int| 0 <= i < opt@.len() ==> T::optioned_form(full[i], #[trigger] opt@[i]),
        {
            opt.push(element.into_optioned());
        }
        opt
    }

    fn try_from_optioned(value: Self::Optioned) -> (res: Result<Self, Error>) {
        let ghost source = value@;
        let mut full: Vec<T> = Vec::new();
        for element in it: value
            invariant
                it.seq() == source,
                full@.len() == it.index(),
                forall|i: int|
                    0 <= i < full@.len() ==> T::rebuilt(source[i], Ok(#[trigger] full@[i])),
        {
            match T::try_from_optioned(element) {
                Ok(rebuilt) => full.push(rebuilt),
                Err(e) => {
                    proof {
                        let at = full@.len() as int;
                        assert(T::rebuilt(source[at], Err(e)));
                        assert forall|k: int| 0 <= k < at implies can_rebuild::<T>(
                            #[trigger] source[k],
                        ) by {
                            assert(T::rebuilt(source[k], Ok(full@[k])));
                        }
                        assert(seq_fails_with::<T>(source, e));
                    }
                    return Err(e);
                },
            }
        }
        Ok(full)
    }

    fn merge(&mut self, other: Self::Optioned) -> (res: Result<(), Error>) {
        match Self::try_from_optioned(other) {
            Ok(full) => {
                *self = full;
                Ok(())
            },
            Err(e) => Err(e),
        }
    }
}

impl<T: Optionable> Optionable for VecDeque<T> {
    type Optioned = VecDeque<T::Optioned>;
}

impl<T: OptionableConvert> OptionableConvert for VecDeque<T> {
    open spec fn optioned_form(full: Self, opt: Self::Optioned) -> bool {
        seq_optioned_form(full@, opt@)
    }

    open spec fn rebuilt(value: Self::Optioned, res: Result<Self, Error>) -> bool {
        seq_rebuilt(value@, elements(res))
    }

    open spec fn merged(
        before: Self,
        other: Self::Optioned,
        after: Self,
        res: Result<(), Error>,
    ) -> bool {
        seq_overwritten(before@, other@, after@, res)
    }

    fn into_optioned(self) -> (opt: Self::Optioned) {
        let ghost full = self@;
        let mut rest = self;
        let mut opt: VecDeque<T::Optioned> = VecDeque::new();
        loop
            invariant
                opt@.len() + rest@.len() == full.len(),
                rest@ == full.skip(opt@.len() as int),
                forall|i: int| 0 <= i < opt@.len() ==> T::optioned_form(full[i], #[trigger] opt@[i]),
            ensures
                seq_optioned_form(full, opt@),
            decreases rest@.len(),
        {
            match rest.pop_front() {
                Some(element) => opt.push_back(element.into_optioned()),
                None => break ,
            }
        }
        opt
    }

    fn try_from_optioned(value: Self::Optioned) -> (res: Result<Self, Error>) {
        let ghost source = value@;
        let mut rest = value;
        let mut full: VecDeque<T> = VecDeque::new();
        loop
            invariant
                source == value@,
                full@.len() + rest@.len() == source.len(),
                rest@ == source.skip(full@.len() as int),
                forall|i: int|
                    0 <= i < full@.len() ==> T::rebuilt(source[i], Ok(#[trigger] full@[i])),
            ensures
                seq_rebuilt::<T>(source, Ok(full@)),
            decreases rest@.len(),
        {
            match rest.pop_front() {
                Some(element) => match T::try_from_optioned(element) {
                    Ok(rebuilt) => full.push_back(rebuilt),
                    Err(e) => {
                        proof {
                            let at = full@.len() as int;
                            assert(T::rebuilt(source[at], Err(e)));
                            assert forall|k: int| 0 <= k < at implies can_rebuild::<T>(
                                #[trigger] source[k],
                            ) by {
                                assert(T::rebuilt(source[k], Ok(full@[k])));
                            }
                            assert(seq_fails_with::<T>(source, e));
                        }
                        return Err(e);
                    },
                },
                None => break ,
            }
        }
        Ok(full)
    }

    fn merge(&mut self, other: Self::Optioned) -> (res: Result<(), Error>) {
        match Self::try_from_optioned(other) {
            Ok(full) => {
                *self = full;
                Ok(())
            },
            Err(e) => Err(e),
        }
    }
}

impl<T: Optionable> Optionable for Box<T> {
    type Optioned = Box<T::Optioned>;
}

impl<T: OptionableConvert> OptionableConvert for Box<T> {
    open spec fn optioned_form(full: Self, opt: Self::Optioned) -> bool {
        T::optioned_form(*full, *opt)
    }

    open spec fn rebuilt(value: Self::Optioned, res: Result<Self, Error>) -> bool {
        T::rebuilt(
            *value,
            match res {
                Ok(full) => Ok(*full),
                Err(e) => Err(e),
            },
        )
    }

    open spec fn merged(
        before: Self,
        other: Self::Optioned,
        after: Self,
        res: Result<(), Error>,
    ) -> bool {
        T::merged(*before, *other, *after, res)
    }

    fn into_optioned(self) -> (opt: Self::Optioned) {
        let inner = *self;
        Box::new(inner.into_optioned())
    }

    fn try_from_optioned(value: Self::Optioned) -> (res: Result<Self, Error>) {
        let inner = *value;
        match T::try_from_optioned(inner) {
            Ok(full) => Ok(Box::new(full)),
            Err(e) => Err(e),
        }
    }

    fn merge(&mut self, other: Self::Optioned) -> (res: Result<(), Error>) {
        let inner = &mut **self;
        let other_inner = *other;
        inner.merge(other_inner)
    }
}

/// Round-trip law of the owning wrapper: a boxed value round-trips where the value
/// in the box does.
pub proof fn lemma_box_round_trip<T: OptionableConvert>(full: Box<T>)
    requires
        round_trips(*full),
    ensures
        round_trips(full),
{
    assert forall|opt: Box<T::Optioned>, res: Result<Box<T>, Error>|
        Box::<T>::optioned_form(full, opt) && #[trigger] Box::<T>::rebuilt(opt, res) implies res
        == Ok::<Box<T>, Error>(full) by {
        let inner: Result<T, Error> = match res {
            Ok(b) => Ok(*b),
            Err(e) => Err(e),
        };
        assert(T::rebuilt(*opt, inner));
    }
}

} // verus!
