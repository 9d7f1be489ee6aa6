//! The maps from keys to values. The optioned type of a map is the same map over
//! the optioned value type: keys are never made partial. A merge goes key by key.

use crate::convert::{round_trips, Optionable, OptionableConvert};
use crate::error::Error;
use std::collections::{BTreeMap, HashMap};
use std::hash::Hash;
use std::hash::RandomState;
use vstd::laws_cmp::obeys_cmp;
use vstd::prelude::*;
use vstd::std_specs::hash::{builds_valid_hashers, obeys_key_model};

verus! {

/// `opt` has the keys of `full`, and under each key the optioned form of the value
/// that `full` has there.
pub open spec fn map_optioned_form<K, T: OptionableConvert>(
    full: Map<K, T>,
    opt: Map<K, T::Optioned>,
) -> bool {
    &&& opt.dom() == full.dom()
    &&& forall|k: K| full.contains_key(k) ==> T::optioned_form(full[k], #[trigger] opt[k])
}

/// `res` is an outcome of rebuilding the values of `value`: either a map with the
/// same keys, each value rebuilt under its key, or the report for one of the values.
pub open spec fn map_rebuilt<K, T: OptionableConvert>(
    value: Map<K, T::Optioned>,
    res: Result<Map<K, T>, Error>,
) -> bool {
    match res {
        Ok(full) => {
            &&& full.dom() == value.dom()
            &&& forall|k: K| value.contains_key(k) ==> T::rebuilt(value[k], Ok(#[trigger] full[k]))
        },
        Err(e) => map_fails_with::<K, T>(value, e),
    }
}

/// `e` is the report for one of the values of `value`, which cannot be rebuilt.
pub open spec fn map_fails_with<K, T: OptionableConvert>(
    value: Map<K, T::Optioned>,
    e: Error,
) -> bool {
    exists|k: K| value.contains_key(k) && #[trigger] T::rebuilt(value[k], Err(e))
}

/// The entry of `after` under `k` is that of `before`: both lack it, or both have it
/// with the same value.
pub open spec fn untouched<K, V>(before: Map<K, V>, after: Map<K, V>, k: K) -> bool {
    &&& after.contains_key(k) == before.contains_key(k)
    &&& before.contains_key(k) ==> after[k] == before[k]
}

/// `after` has under `k` a value rebuilt from what `other` has there.
pub open spec fn replaced<K, T: OptionableConvert>(
    other: Map<K, T::Optioned>,
    after: Map<K, T>,
    k: K,
) -> bool {
    after.contains_key(k) && T::rebuilt(other[k], Ok(after[k]))
}

/// `after` and `res` are an outcome of merging `other` into `before` key by key. A
/// key that `other` lacks is untouched. On success every key of `other` has its
/// value replaced. On failure the report is that for one of the values of `other`,
/// and each key of `other` is either replaced or untouched: nothing is rolled back.
pub open spec fn map_merged<K, T: OptionableConvert>(
    before: Map<K, T>,
    other: Map<K, T::Optioned>,
    after: Map<K, T>,
    res: Result<(), Error>,
) -> bool {
    &&& forall|k: K| !other.contains_key(k) ==> #[trigger] untouched(before, after, k)
    &&& match res {
        Ok(_) => forall|k: K| other.contains_key(k) ==> #[trigger] replaced::<K, T>(other, after, k),
        Err(e) => {
            &&& map_fails_with::<K, T>(other, e)
            &&& forall|k: K|
                other.contains_key(k) ==> #[trigger] replaced::<K, T>(other, after, k) || untouched(
                    before,
                    after,
                    k,
                )
        },
    }
}

/// Round-trip law of the maps: where every value of `full` round-trips, rebuilding
/// from an optioned form of `full` can only succeed, with the entries of `full`.
pub proof fn lemma_map_round_trip<K, T: OptionableConvert>(
    full: Map<K, T>,
    opt: Map<K, T::Optioned>,
    res: Result<Map<K, T>, Error>,
)
    requires
        forall|k: K| full.contains_key(k) ==> round_trips(#[trigger] full[k]),
        map_optioned_form(full, opt),
        map_rebuilt(opt, res),
    ensures
        res == Ok::<Map<K, T>, Error>(full),
{
    match res {
        Ok(back) => {
            assert forall|k: K| full.contains_key(k) implies back[k] == full[k] by {
                assert(round_trips(full[k]));
                assert(T::optioned_form(full[k], opt[k]));
                assert(T::rebuilt(opt[k], Ok(back[k])));
            }
            assert(back =~= full);
        },
        Err(e) => {
            let k = choose|k: K| opt.contains_key(k) && #[trigger] T::rebuilt(opt[k], Err(e));
            assert(round_trips(full[k]));
            assert(T::optioned_form(full[k], opt[k]));
        },
    }
}

/// `entries` lists `map`: each of its items is an entry of `map`, no key comes
/// twice, and every key of `map` comes.
pub open spec fn lists<K, V>(entries: Seq<(K, V)>, map: Map<K, V>) -> bool {
    &&& forall|i: int| 0 <= i < entries.len() ==> map.contains_pair((#[trigger] entries[i]).0, entries[i].1)
    &&& forall|i: int, j: int|
        0 <= i < j < entries.len() ==> (#[trigger] entries[i]).0 != (#[trigger] entries[j]).0
    &&& forall|k: K| map.contains_key(k) ==> exists|i: int| 0 <= i < entries.len() && (#[trigger] entries[i]).0 == k
}

/// Whether the keys `K` behave in a hash map with the default hasher as keys of a
/// mathematical map do.
pub open spec fn hash_keys<K>() -> bool {
    obeys_key_model::<K>() && builds_valid_hashers::<RandomState>()
}

/// `Vec::from_iter` on a `std::collections::HashMap`: the consuming iterator of the
/// map moves each entry out once, in an order that is not fixed, and the vector
/// holds what the iterator hands out. Stated for keys that obey the hash-map
/// model: the vector lists the map.
#[verifier::external_body]
fn hash_map_entries<K, V>(map: HashMap<K, V>) -> (entries: Vec<(K, V)>)
    ensures
        hash_keys::<K>() ==> lists(entries@, map@),
{
    Vec::from_iter(map)
}

impl<K, T: Optionable, S> Optionable for HashMap<K, T, S> {
    type Optioned = HashMap<K, T::Optioned, S>;
}

impl<K: Ord + Hash, T: OptionableConvert> OptionableConvert for HashMap<K, T> {
    open spec fn optioned_form(full: Self, opt: Self::Optioned) -> bool {
        hash_keys::<K>() ==> map_optioned_form(full@, opt@)
    }

    open spec fn rebuilt(value: Self::Optioned, res: Result<Self, Error>) -> bool {
        hash_keys::<K>() ==> map_rebuilt(value@, crate::container::elements(res))
    }

    open spec fn merged(
        before: Self,
        other: Self::Optioned,
        after: Self,
        res: Result<(), Error>,
    ) -> bool {
        hash_keys::<K>() ==> map_merged(before@, other@, after@, res)
    }

    fn into_optioned(self) -> (opt: Self::Optioned) {
        let ghost full = self@;
        let entries = hash_map_entries(self);
        let ghost listed = entries@;
        let mut opt: HashMap<K, T::Optioned> = HashMap::new();
        for entry in it: entries
            invariant
                it.seq() == listed,
                hash_keys::<K>() ==> lists(listed, full),
                hash_keys::<K>() ==> forall|k: K|
                    opt@.contains_key(k) <==> exists|j: int|
                        0 <= j < it.index() && (#[trigger] listed[j]).0 == k,
                hash_keys::<K>() ==> forall|j: int|
                    0 <= j < it.index() ==> T::optioned_form(
                        (#[trigger] listed[j]).1,
                        opt@[listed[j].0],
                    ),
        {
            let ghost at = opt@.len();
            let ghost before = opt@;
            let (k, v) = entry;
            opt.insert(k, v.into_optioned());
            proof {
                if hash_keys::<K>() {
                    let i = it.index() as int;
                    assert(listed[i].0 == k);
                    assert forall|j: int| 0 <= j < i + 1 implies T::optioned_form(
                        (#[trigger] listed[j]).1,
                        opt@[listed[j].0],
                    ) by {
                        if j < i {
                            assert(listed[j].0 != listed[i].0);
                        }
                    }
                    assert forall|q: K| opt@.contains_key(q) <==> exists|j: int|
                        0 <= j < i + 1 && (#[trigger] listed[j]).0 == q by {
                        if before.contains_key(q) {
                            let j = choose|j: int| 0 <= j < i && (#[trigger] listed[j]).0 == q;
                            assert(0 <= j < i + 1 && listed[j].0 == q);
                        }
                    }
                }
            }
        }
        proof {
            if hash_keys::<K>() {
                assert(opt@.dom() =~= full.dom()) by {
                    assert forall|q: K| opt@.contains_key(q) <==> full.contains_key(q) by {
                        if opt@.contains_key(q) {
                            let j = choose|j: int|
                                0 <= j < listed.len() && (#[trigger] listed[j]).0 == q;
                            assert(full.contains_pair(listed[j].0, listed[j].1));
                        }
                    }
                }
                assert forall|q: K| full.contains_key(q) implies T::optioned_form(
                    full[q],
                    #[trigger] opt@[q],
                ) by {
                    let j = choose|j: int| 0 <= j < listed.len() && (#[trigger] listed[j]).0 == q;
                    assert(full.contains_pair(listed[j].0, listed[j].1));
                }
            }
        }
        opt
    }

    fn try_from_optioned(value: Self::Optioned) -> (res: Result<Self, Error>) {
        let ghost source = value@;
        let entries = hash_map_entries(value);
        let ghost listed = entries@;
        let mut full: HashMap<K, T> = HashMap::new();
        for entry in it: entries
            invariant
                it.seq() == listed,
                source == value@,
                hash_keys::<K>() ==> lists(listed, source),
                hash_keys::<K>() ==> forall|k: K|
                    full@.contains_key(k) <==> exists|j: int|
                        0 <= j < it.index() && (#[trigger] listed[j]).0 == k,
                hash_keys::<K>() ==> forall|j: int|
                    0 <= j < it.index() ==> T::rebuilt(
                        (#[trigger] listed[j]).1,
                        Ok(full@[listed[j].0]),
                    ),
        {
            let ghost before = full@;
            let ghost i = it.index() as int;
            let (k, v) = entry;
            match T::try_from_optioned(v) {
                Ok(rebuilt) => {
                    full.insert(k, rebuilt);
                },
                Err(e) => {
                    proof {
                        if hash_keys::<K>() {
                            assert(source.contains_pair(listed[i].0, listed[i].1));
                            assert(source.contains_key(listed[i].0));
                            assert(T::rebuilt(source[listed[i].0], Err(e)));
                            assert(map_fails_with::<K, T>(source, e));
                        }
                    }
                    return Err(e);
                },
            }
            proof {
                if hash_keys::<K>() {
                    assert(listed[i].0 == k);
                    assert forall|j: int| 0 <= j < i + 1 implies T::rebuilt(
                        (#[trigger] listed[j]).1,
                        Ok(full@[listed[j].0]),
                    ) by {
                        if j < i {
                            assert(listed[j].0 != listed[i].0);
                        }
                    }
                    assert forall|q: K| full@.contains_key(q) <==> exists|j: int|
                        0 <= j < i + 1 && (#[trigger] listed[j]).0 == q by {
                        if before.contains_key(q) {
                            let j = choose|j: int| 0 <= j < i && (#[trigger] listed[j]).0 == q;
                            assert(0 <= j < i + 1 && listed[j].0 == q);
                        }
                    }
                }
            }
        }
        proof {
            if hash_keys::<K>() {
                assert(full@.dom() =~= source.dom()) by {
                    assert forall|q: K| full@.contains_key(q) <==> source.contains_key(q) by {
                        if full@.contains_key(q) {
                            let j = choose|j: int|
                                0 <= j < listed.len() && (#[trigger] listed[j]).0 == q;
                            assert(source.contains_pair(listed[j].0, listed[j].1));
                        }
                    }
                }
                assert forall|q: K| source.contains_key(q) implies T::rebuilt(
                    source[q],
                    Ok(#[trigger] full@[q]),
                ) by {
                    let j = choose|j: int| 0 <= j < listed.len() && (#[trigger] listed[j]).0 == q;
                    assert(source.contains_pair(listed[j].0, listed[j].1));
                }
            }
        }
        Ok(full)
    }

    fn merge(&mut self, other: Self::Optioned) -> (res: Result<(), Error>) {
        let ghost before = self@;
        let ghost source = other@;
        let entries = hash_map_entries(other);
        let ghost listed = entries@;
        for entry in it: entries
            invariant
                it.seq() == listed,
                source == other@,
                before == old(self)@,
                hash_keys::<K>() ==> lists(listed, source),
                hash_keys::<K>() ==> forall|k: K|
                    (forall|j: int| 0 <= j < it.index() ==> (#[trigger] listed[j]).0 != k)
                        ==> #[trigger] untouched(before, self@, k),
                hash_keys::<K>() ==> forall|j: int|
                    0 <= j < it.index() ==> replaced::<K, T>(source, self@, (#[trigger] listed[j]).0),
        {
            let ghost prior = self@;
            let ghost i = it.index() as int;
            let (k, v) = entry;
            match T::try_from_optioned(v) {
                Ok(rebuilt) => {
                    self.insert(k, rebuilt);
                },
                Err(e) => {
                    proof {
                        if hash_keys::<K>() {
                            assert(source.contains_pair(listed[i].0, listed[i].1));
                            assert(T::rebuilt(source[listed[i].0], Err(e)));
                            assert(map_fails_with::<K, T>(source, e));
                            assert forall|q: K| !source.contains_key(q) implies #[trigger] untouched(
                                before,
                                self@,
                                q,
                            ) by {
                                assert forall|j: int| 0 <= j < i implies (#[trigger] listed[j]).0
                                    != q by {
                                    assert(source.contains_pair(listed[j].0, listed[j].1));
                                }
                            }
                            assert forall|q: K| source.contains_key(q) implies #[trigger] replaced::<
                                K,
                                T,
                            >(source, self@, q) || untouched(before, self@, q) by {
                                if exists|j: int| 0 <= j < i && (#[trigger] listed[j]).0 == q {
                                    let j = choose|j: int|
                                        0 <= j < i && (#[trigger] listed[j]).0 == q;
                                    assert(replaced::<K, T>(source, self@, listed[j].0));
                                }
                            }
                        }
                    }
                    return Err(e);
                },
            }
            proof {
                if hash_keys::<K>() {
                    assert(listed[i].0 == k);
                    assert(source.contains_pair(listed[i].0, listed[i].1));
                    assert forall|j: int| 0 <= j < i + 1 implies replaced::<K, T>(
                        source,
                        self@,
                        (#[trigger] listed[j]).0,
                    ) by {
                        if j < i {
                            assert(listed[j].0 != listed[i].0);
                            assert(replaced::<K, T>(source, prior, listed[j].0));
                        }
                    }
                    assert forall|q: K|
                        (forall|j: int| 0 <= j < i + 1 ==> (#[trigger] listed[j]).0 != q) implies
                        #[trigger] untouched(before, self@, q) by {
                        assert(listed[i].0 != q);
                        assert(untouched(before, prior, q));
                    }
                }
            }
        }
        proof {
            if hash_keys::<K>() {
                assert forall|q: K| !source.contains_key(q) implies #[trigger] untouched(
                    before,
                    self@,
                    q,
                ) by {
                    assert forall|j: int| 0 <= j < listed.len() implies (#[trigger] listed[j]).0
                        != q by {
                        assert(source.contains_pair(listed[j].0, listed[j].1));
                    }
                }
                assert forall|q: K| source.contains_key(q) implies #[trigger] replaced::<K, T>(
                    source,
                    self@,
                    q,
                ) by {
                    let j = choose|j: int| 0 <= j < listed.len() && (#[trigger] listed[j]).0 == q;
                    assert(replaced::<K, T>(source, self@, listed[j].0));
                }
            }
        }
        Ok(())
    }
}

/// Whether the keys `K` are ordered as the keys of a mathematical map need it: their
/// comparison is a total order that agrees with equality.
pub open spec fn ordered_keys<K: Ord>() -> bool {
    obeys_cmp::<K>()
}

/// `Vec::from_iter` on a `std::collections::BTreeMap`: the consuming iterator of
/// the map moves each entry out once, in the order of the keys, and the vector
/// holds what the iterator hands out. Stated for keys that are ordered: the vector
/// lists the map.
#[verifier::external_body]
fn btree_map_entries<K: Ord, V>(map: BTreeMap<K, V>) -> (entries: Vec<(K, V)>)
    ensures
        ordered_keys::<K>() ==> lists(entries@, map@),
{
    Vec::from_iter(map)
}

impl<K, T: Optionable> Optionable for BTreeMap<K, T> {
    type Optioned = BTreeMap<K, T::Optioned>;
}

impl<K: Ord, T: OptionableConvert> OptionableConvert for BTreeMap<K, T> {
    open spec fn optioned_form(full: Self, opt: Self::Optioned) -> bool {
        ordered_keys::<K>() ==> map_optioned_form(full@, opt@)
    }

    open spec fn rebuilt(value: Self::Optioned, res: Result<Self, Error>) -> bool {
        ordered_keys::<K>() ==> map_rebuilt(value@, crate::container::elements(res))
    }

    open spec fn merged(
        before: Self,
        other: Self::Optioned,
        after: Self,
        res: Result<(), Error>,
    ) -> bool {
        ordered_keys::<K>() ==> map_merged(before@, other@, after@, res)
    }

    fn into_optioned(self) -> (opt: Self::Optioned) {
        let ghost full = self@;
        let entries = btree_map_entries(self);
        let ghost listed = entries@;
        let mut opt: BTreeMap<K, T::Optioned> = BTreeMap::new();
        for entry in it: entries
            invariant
                it.seq() == listed,
                ordered_keys::<K>() ==> lists(listed, full),
                ordered_keys::<K>() ==> forall|k: K|
                    opt@.contains_key(k) <==> exists|j: int|
                        0 <= j < it.index() && (#[trigger] listed[j]).0 == k,
                ordered_keys::<K>() ==> forall|j: int|
                    0 <= j < it.index() ==> T::optioned_form(
                        (#[trigger] listed[j]).1,
                        opt@[listed[j].0],
                    ),
        {
            let ghost at = opt@.len();
            let ghost before = opt@;
            let (k, v) = entry;
            opt.insert(k, v.into_optioned());
            proof {
                if ordered_keys::<K>() {
                    let i = it.index() as int;
                    assert(listed[i].0 == k);
                    assert forall|j: int| 0 <= j < i + 1 implies T::optioned_form(
                        (#[trigger] listed[j]).1,
                        opt@[listed[j].0],
                    ) by {
                        if j < i {
                            assert(listed[j].0 != listed[i].0);
                        }
                    }
                    assert forall|q: K| opt@.contains_key(q) <==> exists|j: int|
                        0 <= j < i + 1 && (#[trigger] listed[j]).0 == q by {
                        if before.contains_key(q) {
                            let j = choose|j: int| 0 <= j < i && (#[trigger] listed[j]).0 == q;
                            assert(0 <= j < i + 1 && listed[j].0 == q);
                        }
                    }
                }
            }
        }
        proof {
            if ordered_keys::<K>() {
                assert(opt@.dom() =~= full.dom()) by {
                    assert forall|q: K| opt@.contains_key(q) <==> full.contains_key(q) by {
                        if opt@.contains_key(q) {
                            let j = choose|j: int|
                                0 <= j < listed.len() && (#[trigger] listed[j]).0 == q;
                            assert(full.contains_pair(listed[j].0, listed[j].1));
                        }
                    }
                }
                assert forall|q: K| full.contains_key(q) implies T::optioned_form(
                    full[q],
                    #[trigger] opt@[q],
                ) by {
                    let j = choose|j: int| 0 <= j < listed.len() && (#[trigger] listed[j]).0 == q;
                    assert(full.contains_pair(listed[j].0, listed[j].1));
                }
            }
        }
        opt
    }

    fn try_from_optioned(value: Self::Optioned) -> (res: Result<Self, Error>) {
        let ghost source = value@;
        let entries = btree_map_entries(value);
        let ghost listed = entries@;
        let mut full: BTreeMap<K, T> = BTreeMap::new();
        for entry in it: entries
            invariant
                it.seq() == listed,
                source == value@,
                ordered_keys::<K>() ==> lists(listed, source),
                ordered_keys::<K>() ==> forall|k: K|
                    full@.contains_key(k) <==> exists|j: int|
                        0 <= j < it.index() && (#[trigger] listed[j]).0 == k,
                ordered_keys::<K>() ==> forall|j: int|
                    0 <= j < it.index() ==> T::rebuilt(
                        (#[trigger] listed[j]).1,
                        Ok(full@[listed[j].0]),
                    ),
        {
            let ghost before = full@;
            let ghost i = it.index() as int;
            let (k, v) = entry;
            match T::try_from_optioned(v) {
                Ok(rebuilt) => {
                    full.insert(k, rebuilt);
                },
                Err(e) => {
                    proof {
                        if ordered_keys::<K>() {
                            assert(source.contains_pair(listed[i].0, listed[i].1));
                            assert(source.contains_key(listed[i].0));
                            assert(T::rebuilt(source[listed[i].0], Err(e)));
                            assert(map_fails_with::<K, T>(source, e));
                        }
                    }
                    return Err(e);
                },
            }
            proof {
                if ordered_keys::<K>() {
                    assert(listed[i].0 == k);
                    assert forall|j: int| 0 <= j < i + 1 implies T::rebuilt(
                        (#[trigger] listed[j]).1,
                        Ok(full@[listed[j].0]),
                    ) by {
                        if j < i {
                            assert(listed[j].0 != listed[i].0);
                        }
                    }
                    assert forall|q: K| full@.contains_key(q) <==> exists|j: int|
                        0 <= j < i + 1 && (#[trigger] listed[j]).0 == q by {
                        if before.contains_key(q) {
                            let j = choose|j: int| 0 <= j < i && (#[trigger] listed[j]).0 == q;
                            assert(0 <= j < i + 1 && listed[j].0 == q);
                        }
                    }
                }
            }
        }
        proof {
            if ordered_keys::<K>() {
                assert(full@.dom() =~= source.dom()) by {
                    assert forall|q: K| full@.contains_key(q) <==> source.contains_key(q) by {
                        if full@.contains_key(q) {
                            let j = choose|j: int|
                                0 <= j < listed.len() && (#[trigger] listed[j]).0 == q;
                            assert(source.contains_pair(listed[j].0, listed[j].1));
                        }
                    }
                }
                assert forall|q: K| source.contains_key(q) implies T::rebuilt(
                    source[q],
                    Ok(#[trigger] full@[q]),
                ) by {
                    let j = choose|j: int| 0 <= j < listed.len() && (#[trigger] listed[j]).0 == q;
                    assert(source.contains_pair(listed[j].0, listed[j].1));
                }
            }
        }
        Ok(full)
    }

    fn merge(&mut self, other: Self::Optioned) -> (res: Result<(), Error>) {
        let ghost before = self@;
        let ghost source = other@;
        let entries = btree_map_entries(other);
        let ghost listed = entries@;
        for entry in it: entries
            invariant
                it.seq() == listed,
                source == other@,
                before == old(self)@,
                ordered_keys::<K>() ==> lists(listed, source),
                ordered_keys::<K>() ==> forall|k: K|
                    (forall|j: int| 0 <= j < it.index() ==> (#[trigger] listed[j]).0 != k)
                        ==> #[trigger] untouched(before, self@, k),
                ordered_keys::<K>() ==> forall|j: int|
                    0 <= j < it.index() ==> replaced::<K, T>(source, self@, (#[trigger] listed[j]).0),
        {
            let ghost prior = self@;
            let ghost i = it.index() as int;
            let (k, v) = entry;
            match T::try_from_optioned(v) {
                Ok(rebuilt) => {
                    self.insert(k, rebuilt);
                },
                Err(e) => {
                    proof {
                        if ordered_keys::<K>() {
                            assert(source.contains_pair(listed[i].0, listed[i].1));
                            assert(T::rebuilt(source[listed[i].0], Err(e)));
                            assert(map_fails_with::<K, T>(source, e));
                            assert forall|q: K| !source.contains_key(q) implies #[trigger] untouched(
                                before,
                                self@,
                                q,
                            ) by {
                                assert forall|j: int| 0 <= j < i implies (#[trigger] listed[j]).0
                                    != q by {
                                    assert(source.contains_pair(listed[j].0, listed[j].1));
                                }
                            }
                            assert forall|q: K| source.contains_key(q) implies #[trigger] replaced::<
                                K,
                                T,
                            >(source, self@, q) || untouched(before, self@, q) by {
                                if exists|j: int| 0 <= j < i && (#[trigger] listed[j]).0 == q {
                                    let j = choose|j: int|
                                        0 <= j < i && (#[trigger] listed[j]).0 == q;
                                    assert(replaced::<K, T>(source, self@, listed[j].0));
                                }
                            }
                        }
                    }
                    return Err(e);
                },
            }
            proof {
                if ordered_keys::<K>() {
                    assert(listed[i].0 == k);
                    assert(source.contains_pair(listed[i].0, listed[i].1));
                    assert forall|j: int| 0 <= j < i + 1 implies replaced::<K, T>(
                        source,
                        self@,
                        (#[trigger] listed[j]).0,
                    ) by {
                        if j < i {
                            assert(listed[j].0 != listed[i].0);
                            assert(replaced::<K, T>(source, prior, listed[j].0));
                        }
                    }
                    assert forall|q: K|
                        (forall|j: int| 0 <= j < i + 1 ==> (#[trigger] listed[j]).0 != q) implies
                        #[trigger] untouched(before, self@, q) by {
                        assert(listed[i].0 != q);
                        assert(untouched(before, prior, q));
                    }
                }
            }
        }
        proof {
            if ordered_keys::<K>() {
                assert forall|q: K| !source.contains_key(q) implies #[trigger] untouched(
                    before,
                    self@,
                    q,
                ) by {
                    assert forall|j: int| 0 <= j < listed.len() implies (#[trigger] listed[j]).0
                        != q by {
                        assert(source.contains_pair(listed[j].0, listed[j].1));
                    }
                }
                assert forall|q: K| source.contains_key(q) implies #[trigger] replaced::<K, T>(
                    source,
                    self@,
                    q,
                ) by {
                    let j = choose|j: int| 0 <= j < listed.len() && (#[trigger] listed[j]).0 == q;
                    assert(replaced::<K, T>(source, self@, listed[j].0));
                }
            }
        }
        Ok(())
    }
}

} // verus!
