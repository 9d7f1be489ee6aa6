//! The sets. The optioned type of a set is the same set over the optioned element
//! type. Its conversions go element by element, and a merge replaces the whole set
//! by what the optioned value holds.

use crate::convert::{round_trips, Optionable, OptionableConvert};
use crate::error::Error;
use std::collections::{BTreeSet, HashSet};
use std::hash::{BuildHasher, Hash};
use vstd::laws_cmp::obeys_cmp;
use vstd::prelude::*;
use vstd::std_specs::hash::{builds_valid_hashers, obeys_key_model};

verus! {

/// `opt` holds the optioned forms of the elements of `full` and nothing else.
pub open spec fn set_optioned_form<T: OptionableConvert>(
    full: Set<T>,
    opt: Set<T::Optioned>,
) -> bool {
    &&& forall|x: T| full.contains(x) ==> #[trigger] has_optioned_form(x, opt)
    &&& forall|o: T::Optioned| opt.contains(o) ==> #[trigger] is_optioned_form_in(full, o)
}

/// `opt` holds an optioned form of `x`.
pub open spec fn has_optioned_form<T: OptionableConvert>(x: T, opt: Set<T::Optioned>) -> bool {
    exists|o: T::Optioned| opt.contains(o) && #[trigger] T::optioned_form(x, o)
}

/// `o` is the optioned form of an element of `full`.
pub open spec fn is_optioned_form_in<T: OptionableConvert>(full: Set<T>, o: T::Optioned) -> bool {
    exists|x: T| full.contains(x) && #[trigger] T::optioned_form(x, o)
}

/// `full` holds a value rebuilt from `o`.
pub open spec fn has_rebuilt<T: OptionableConvert>(o: T::Optioned, full: Set<T>) -> bool {
    exists|x: T| full.contains(x) && #[trigger] T::rebuilt(o, Ok(x))
}

/// `x` was rebuilt from an element of `value`.
pub open spec fn is_rebuilt_from<T: OptionableConvert>(value: Set<T::Optioned>, x: T) -> bool {
    exists|o: T::Optioned| value.contains(o) && #[trigger] T::rebuilt(o, Ok(x))
}

/// `e` is the report for one of the elements of `value`, which cannot be rebuilt.
pub open spec fn set_fails_with<T: OptionableConvert>(value: Set<T::Optioned>, e: Error) -> bool {
    exists|o: T::Optioned| value.contains(o) && #[trigger] T::rebuilt(o, Err(e))
}

/// `res` is an outcome of rebuilding the elements of `value`: either the set of
/// what was rebuilt from them and nothing else, or the report for one of them.
pub open spec fn set_rebuilt<T: OptionableConvert>(
    value: Set<T::Optioned>,
    res: Result<Set<T>, Error>,
) -> bool {
    match res {
        Ok(full) => {
            &&& forall|o: T::Optioned| value.contains(o) ==> #[trigger] has_rebuilt(o, full)
            &&& forall|x: T| full.contains(x) ==> #[trigger] is_rebuilt_from(value, x)
        },
        Err(e) => set_fails_with::<T>(value, e),
    }
}

/// `after` and `res` are an outcome of replacing the set `before` by what can be
/// rebuilt from `other`: on failure nothing has changed.
pub open spec fn set_overwritten<T: OptionableConvert>(
    before: Set<T>,
    other: Set<T::Optioned>,
    after: Set<T>,
    res: Result<(), Error>,
) -> bool {
    match res {
        Ok(_) => set_rebuilt::<T>(other, Ok(after)),
        Err(e) => set_fails_with::<T>(other, e) && after == before,
    }
}

/// Round-trip law of the sets: where every element of `full` round-trips,
/// rebuilding from an optioned form of `full` can only succeed, with the elements
/// of `full`.
pub proof fn lemma_set_round_trip<T: OptionableConvert>(
    full: Set<T>,
    opt: Set<T::Optioned>,
    res: Result<Set<T>, Error>,
)
    requires
        forall|x: T| full.contains(x) ==> #[trigger] round_trips(x),
        set_optioned_form(full, opt),
        set_rebuilt(opt, res),
    ensures
        res == Ok::<Set<T>, Error>(full),
{
    match res {
        Ok(back) => {
            assert forall|x: T| back.contains(x) == full.contains(x) by {
                if back.contains(x) {
                    assert(is_rebuilt_from(opt, x));
                    let o = choose|o: T::Optioned| opt.contains(o) && #[trigger] T::rebuilt(o, Ok(x));
                    assert(is_optioned_form_in(full, o));
                    let y = choose|y: T| full.contains(y) && #[trigger] T::optioned_form(y, o);
                    assert(round_trips(y));
                }
                if full.contains(x) {
                    assert(has_optioned_form(x, opt));
                    let o = choose|o: T::Optioned| opt.contains(o) && #[trigger] T::optioned_form(x, o);
                    assert(has_rebuilt(o, back));
                    let w = choose|w: T| back.contains(w) && #[trigger] T::rebuilt(o, Ok(w));
                    assert(round_trips(x));
                }
            }
            assert(back =~= full);
        },
        Err(e) => {
            let o = choose|o: T::Optioned| opt.contains(o) && #[trigger] T::rebuilt(o, Err(e));
            assert(is_optioned_form_in(full, o));
            let y = choose|y: T| full.contains(y) && #[trigger] T::optioned_form(y, o);
            assert(round_trips(y));
        },
    }
}

/// `items` lists `set`: each of its items is an element of `set`, and every element
/// of `set` comes.
pub open spec fn lists_set<T>(items: Seq<T>, set: Set<T>) -> bool {
    &&& forall|i: int| 0 <= i < items.len() ==> set.contains(#[trigger] items[i])
    &&& forall|x: T| set.contains(x) ==> #[trigger] items.contains(x)
}

/// Whether the elements `T` behave in a hash set with the hasher `S` as elements of
/// a mathematical set do.
pub open spec fn hash_elements<T, S>() -> bool {
    obeys_key_model::<T>() && builds_valid_hashers::<S>()
}

/// `items` lists the hash set `set`, as far as its elements obey the hash-set model.
pub open spec fn lists_hash_set<T, S>(items: Seq<T>, set: HashSet<T, S>) -> bool {
    hash_elements::<T, S>() ==> lists_set(items, set@)
}

/// `Vec::from_iter` on a `std::collections::HashSet`: the consuming iterator of the
/// set moves each element out once, in an order that is not fixed, and the vector
/// holds what the iterator hands out. Stated for elements that obey the hash-set
/// model: the vector lists the set.
#[verifier::external_body]
fn hash_set_items<T, S>(set: HashSet<T, S>) -> (items: Vec<T>)
    ensures
        lists_hash_set(items@, set),
{
    Vec::from_iter(set)
}

impl<T: Optionable, S> Optionable for HashSet<T, S> {
    type Optioned = HashSet<T::Optioned, S>;
}

impl<T: OptionableConvert, S: Default + BuildHasher> OptionableConvert for HashSet<T, S> where
    T: Ord + Hash,
    T::Optioned: Ord + Hash,
 {
    open spec fn optioned_form(full: Self, opt: Self::Optioned) -> bool {
        hash_elements::<T, S>() && hash_elements::<T::Optioned, S>() ==> set_optioned_form(
            full@,
            opt@,
        )
    }

    open spec fn rebuilt(value: Self::Optioned, res: Result<Self, Error>) -> bool {
        hash_elements::<T, S>() && hash_elements::<T::Optioned, S>() ==> set_rebuilt(
            value@,
            crate::container::elements(res),
        )
    }

    open spec fn merged(
        before: Self,
        other: Self::Optioned,
        after: Self,
        res: Result<(), Error>,
    ) -> bool {
        hash_elements::<T, S>() && hash_elements::<T::Optioned, S>() ==> set_overwritten(
            before@,
            other@,
            after@,
            res,
        )
    }

    fn into_optioned(self) -> (opt: Self::Optioned) {
        let ghost full = self@;
        let ghost modelled = hash_elements::<T, S>() && hash_elements::<T::Optioned, S>();
        let items = hash_set_items(self);
        let ghost listed = items@;
        let mut opt: HashSet<T::Optioned, S> = HashSet::default();
        for item in it: items
            invariant
                it.seq() == listed,
                modelled == (hash_elements::<T, S>() && hash_elements::<T::Optioned, S>()),
                modelled ==> lists_set(listed, full),
                modelled ==> forall|j: int|
                    0 <= j < it.index() ==> #[trigger] has_optioned_form(listed[j], opt@),
                modelled ==> forall|o: T::Optioned|
                    opt@.contains(o) ==> #[trigger] is_optioned_form_in(full, o),
        {
            let ghost before = opt@;
            let ghost i = it.index() as int;
            let o = item.into_optioned();
            opt.insert(o);
            proof {
                if modelled {
                    assert(T::optioned_form(listed[i], o));
                    assert forall|j: int| 0 <= j < i + 1 implies #[trigger] has_optioned_form(
                        listed[j],
                        opt@,
                    ) by {
                        if j < i {
                            assert(has_optioned_form(listed[j], before));
                            let w = choose|w: T::Optioned|
                                before.contains(w) && #[trigger] T::optioned_form(listed[j], w);
                            assert(opt@.contains(w));
                        } else {
                            assert(opt@.contains(o));
                        }
                    }
                    assert forall|w: T::Optioned| opt@.contains(w) implies #[trigger]
                        is_optioned_form_in(full, w) by {
                        if w == o {
                            assert(full.contains(listed[i]));
                        } else {
                            assert(before.contains(w));
                        }
                    }
                }
            }
        }
        proof {
            if modelled {
                assert forall|x: T| full.contains(x) implies #[trigger] has_optioned_form(
                    x,
                    opt@,
                ) by {
                    assert(listed.contains(x));
                    let j = choose|j: int| 0 <= j < listed.len() && listed[j] == x;
                    assert(has_optioned_form(listed[j], opt@));
                }
            }
        }
        opt
    }

    fn try_from_optioned(value: Self::Optioned) -> (res: Result<Self, Error>) {
        let ghost source = value@;
        let ghost modelled = hash_elements::<T, S>() && hash_elements::<T::Optioned, S>();
        let items = hash_set_items(value);
        let ghost listed = items@;
        let mut full: HashSet<T, S> = HashSet::default();
        for item in it: items
            invariant
                it.seq() == listed,
                source == value@,
                modelled == (hash_elements::<T, S>() && hash_elements::<T::Optioned, S>()),
                modelled ==> lists_set(listed, source),
                modelled ==> forall|j: int|
                    0 <= j < it.index() ==> #[trigger] has_rebuilt(listed[j], full@),
                modelled ==> forall|x: T|
                    full@.contains(x) ==> #[trigger] is_rebuilt_from(source, x),
        {
            let ghost before = full@;
            let ghost i = it.index() as int;
            match T::try_from_optioned(item) {
                Ok(x) => {
                    full.insert(x);
                    proof {
                        if modelled {
                            assert(T::rebuilt(listed[i], Ok(x)));
                            assert forall|j: int| 0 <= j < i + 1 implies #[trigger] has_rebuilt(
                                listed[j],
                                full@,
                            ) by {
                                if j < i {
                                    assert(has_rebuilt(listed[j], before));
                                    let w = choose|w: T|
                                        before.contains(w) && #[trigger] T::rebuilt(
                                            listed[j],
                                            Ok(w),
                                        );
                                    assert(full@.contains(w));
                                } else {
                                    assert(full@.contains(x));
                                }
                            }
                            assert forall|w: T| full@.contains(w) implies #[trigger]
                                is_rebuilt_from(source, w) by {
                                if w == x {
                                    assert(source.contains(listed[i]));
                                } else {
                                    assert(before.contains(w));
                                }
                            }
                        }
                    }
                },
                Err(e) => {
                    proof {
                        if modelled {
                            assert(source.contains(listed[i]));
                            assert(T::rebuilt(listed[i], Err(e)));
                            assert(set_fails_with::<T>(source, e));
                        }
                    }
                    return Err(e);
                },
            }
        }
        proof {
            if modelled {
                assert forall|o: T::Optioned| source.contains(o) implies #[trigger] has_rebuilt(
                    o,
                    full@,
                ) by {
                    assert(listed.contains(o));
                    let j = choose|j: int| 0 <= j < listed.len() && listed[j] == o;
                    assert(has_rebuilt(listed[j], full@));
                }
            }
        }
        Ok(full)
    }

    fn merge(&mut self, other: Self::Optioned) -> (res: Result<(), Error>) {
        match Self::try_from_optioned(other) {
            Ok(full) => {
                *self = full;
                Ok(())
            },
            Err(e) => Err(e),
        }
    }
}

/// Whether the elements `T` are ordered as the elements of a mathematical set need
/// it: their comparison is a total order that agrees with equality.
pub open spec fn ordered_elements<T: Ord>() -> bool {
    obeys_cmp::<T>()
}

/// `items` lists the ordered set `set`, as far as its elements are ordered.
pub open spec fn lists_btree_set<T: Ord>(items: Seq<T>, set: BTreeSet<T>) -> bool {
    ordered_elements::<T>() ==> lists_set(items, set@)
}

/// `Vec::from_iter` on a `std::collections::BTreeSet`: the consuming iterator of
/// the set moves each element out once, in ascending order, and the vector holds
/// what the iterator hands out. Stated for elements that are ordered: the vector
/// lists the set.
#[verifier::external_body]
fn btree_set_items<T: Ord>(set: BTreeSet<T>) -> (items: Vec<T>)
    ensures
        lists_btree_set(items@, set),
{
    Vec::from_iter(set)
}

impl<T: Optionable> Optionable for BTreeSet<T> {
    type Optioned = BTreeSet<T::Optioned>;
}

impl<T: OptionableConvert> OptionableConvert for BTreeSet<T> where T: Ord, T::Optioned: Ord {
    open spec fn optioned_form(full: Self, opt: Self::Optioned) -> bool {
        ordered_elements::<T>() && ordered_elements::<T::Optioned>() ==> set_optioned_form(
            full@,
            opt@,
        )
    }

    open spec fn rebuilt(value: Self::Optioned, res: Result<Self, Error>) -> bool {
        ordered_elements::<T>() && ordered_elements::<T::Optioned>() ==> set_rebuilt(
            value@,
            crate::container::elements(res),
        )
    }

    open spec fn merged(
        before: Self,
        other: Self::Optioned,
        after: Self,
        res: Result<(), Error>,
    ) -> bool {
        ordered_elements::<T>() && ordered_elements::<T::Optioned>() ==> set_overwritten(
            before@,
            other@,
            after@,
            res,
        )
    }

    fn into_optioned(self) -> (opt: Self::Optioned) {
        let ghost full = self@;
        let ghost modelled = ordered_elements::<T>() && ordered_elements::<T::Optioned>();
        let items = btree_set_items(self);
        let ghost listed = items@;
        let mut opt: BTreeSet<T::Optioned> = BTreeSet::new();
        for item in it: items
            invariant
                it.seq() == listed,
                modelled == (ordered_elements::<T>() && ordered_elements::<T::Optioned>()),
                modelled ==> lists_set(listed, full),
                modelled ==> forall|j: int|
                    0 <= j < it.index() ==> #[trigger] has_optioned_form(listed[j], opt@),
                modelled ==> forall|o: T::Optioned|
                    opt@.contains(o) ==> #[trigger] is_optioned_form_in(full, o),
        {
            let ghost before = opt@;
            let ghost i = it.index() as int;
            let o = item.into_optioned();
            opt.insert(o);
            proof {
                if modelled {
                    assert(T::optioned_form(listed[i], o));
                    assert forall|j: int| 0 <= j < i + 1 implies #[trigger] has_optioned_form(
                        listed[j],
                        opt@,
                    ) by {
                        if j < i {
                            assert(has_optioned_form(listed[j], before));
                            let w = choose|w: T::Optioned|
                                before.contains(w) && #[trigger] T::optioned_form(listed[j], w);
                            assert(opt@.contains(w));
                        } else {
                            assert(opt@.contains(o));
                        }
                    }
                    assert forall|w: T::Optioned| opt@.contains(w) implies #[trigger]
                        is_optioned_form_in(full, w) by {
                        if w == o {
                            assert(full.contains(listed[i]));
                        } else {
                            assert(before.contains(w));
                        }
                    }
                }
            }
        }
        proof {
            if modelled {
                assert forall|x: T| full.contains(x) implies #[trigger] has_optioned_form(
                    x,
                    opt@,
                ) by {
                    assert(listed.contains(x));
                    let j = choose|j: int| 0 <= j < listed.len() && listed[j] == x;
                    assert(has_optioned_form(listed[j], opt@));
                }
            }
        }
        opt
    }

    fn try_from_optioned(value: Self::Optioned) -> (res: Result<Self, Error>) {
        let ghost source = value@;
        let ghost modelled = ordered_elements::<T>() && ordered_elements::<T::Optioned>();
        let items = btree_set_items(value);
        let ghost listed = items@;
        let mut full: BTreeSet<T> = BTreeSet::new();
        for item in it: items
            invariant
                it.seq() == listed,
                source == value@,
                modelled == (ordered_elements::<T>() && ordered_elements::<T::Optioned>()),
                modelled ==> lists_set(listed, source),
                modelled ==> forall|j: int|
                    0 <= j < it.index() ==> #[trigger] has_rebuilt(listed[j], full@),
                modelled ==> forall|x: T|
                    full@.contains(x) ==> #[trigger] is_rebuilt_from(source, x),
        {
            let ghost before = full@;
            let ghost i = it.index() as int;
            match T::try_from_optioned(item) {
                Ok(x) => {
                    full.insert(x);
                    proof {
                        if modelled {
                            assert(T::rebuilt(listed[i], Ok(x)));
                            assert forall|j: int| 0 <= j < i + 1 implies #[trigger] has_rebuilt(
                                listed[j],
                                full@,
                            ) by {
                                if j < i {
                                    assert(has_rebuilt(listed[j], before));
                                    let w = choose|w: T|
                                        before.contains(w) && #[trigger] T::rebuilt(
                                            listed[j],
                                            Ok(w),
                                        );
                                    assert(full@.contains(w));
                                } else {
                                    assert(full@.contains(x));
                                }
                            }
                            assert forall|w: T| full@.contains(w) implies #[trigger]
                                is_rebuilt_from(source, w) by {
                                if w == x {
                                    assert(source.contains(listed[i]));
                                } else {
                                    assert(before.contains(w));
                                }
                            }
                        }
                    }
                },
                Err(e) => {
                    proof {
                        if modelled {
                            assert(source.contains(listed[i]));
                            assert(T::rebuilt(listed[i], Err(e)));
                            assert(set_fails_with::<T>(source, e));
                        }
                    }
                    return Err(e);
                },
            }
        }
        proof {
            if modelled {
                assert forall|o: T::Optioned| source.contains(o) implies #[trigger] has_rebuilt(
                    o,
                    full@,
                ) by {
                    assert(listed.contains(o));
                    let j = choose|j: int| 0 <= j < listed.len() && listed[j] == o;
                    assert(has_rebuilt(listed[j], full@));
                }
            }
        }
        Ok(full)
    }

    fn merge(&mut self, other: Self::Optioned) -> (res: Result<(), Error>) {
        match Self::try_from_optioned(other) {
            Ok(full) => {
                *self = full;
                Ok(())
            },
            Err(e) => Err(e),
        }
    }
}

} // verus!
