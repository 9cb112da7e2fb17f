//! Laws of change detection, proved over the definitions in `diff`.

use crate::diff::{as_map, change_set, changed, changed_fields, missing_fields, table_after, table_of};
use crate::fingerprint::fingerprint_of;
use vstd::prelude::*;

verus! {

/// The reported list and the reported mapping agree: every entry of the list
/// is a tracked field that changed, with its observed value; no field is
/// listed twice; and read as a mapping the list is the change set.
pub proof fn lemma_changed_fields_as_map(
    table: Map<Seq<char>, Seq<u8>>,
    obs: Map<Seq<char>, Seq<char>>,
    keys: Seq<Seq<char>>,
)
    ensures
        as_map(changed_fields(table, obs, keys)) == change_set(table, obs, keys),
        forall|i: int|
            #![trigger changed_fields(table, obs, keys)[i]]
            0 <= i < changed_fields(table, obs, keys).len() ==> {
                let entry = changed_fields(table, obs, keys)[i];
                keys.contains(entry.0) && changed(table, obs, entry.0) && entry.1 == obs[entry.0]
            },
        forall|i: int, j: int|
            0 <= i < j < changed_fields(table, obs, keys).len() ==> changed_fields(
                table,
                obs,
                keys,
            )[i].0 != changed_fields(table, obs, keys)[j].0,
    decreases keys.len(),
{
    if keys.len() == 0 {
        assert(as_map(changed_fields(table, obs, keys)) =~= change_set(table, obs, keys));
    } else {
        let shorter = keys.drop_last();
        let name = keys.last();
        let earlier = changed_fields(table, obs, shorter);
        let all = changed_fields(table, obs, keys);
        lemma_changed_fields_as_map(table, obs, shorter);
        assert forall|other: Seq<char>| keys.contains(other) <==> shorter.contains(other) || other
            == name by {
            if shorter.contains(other) {
                let i = choose|i: int| 0 <= i < shorter.len() && shorter[i] == other;
                assert(keys[i] == other);
            }
            if other == name {
                assert(keys[keys.len() - 1] == other);
            }
            if keys.contains(other) && other != name {
                let i = choose|i: int| 0 <= i < keys.len() && keys[i] == other;
                assert(shorter[i] == other);
            }
        }
        if !shorter.contains(name) && changed(table, obs, name) {
            assert(all == earlier.push((name, obs[name])));
            assert(all.drop_last() =~= earlier);
            assert(as_map(all) =~= change_set(table, obs, keys));
            assert forall|i: int, j: int| 0 <= i < j < all.len() implies all[i].0 != all[j].0 by {
                assert(shorter.contains(earlier[i].0));
            }
        } else {
            assert(all == earlier);
            assert(as_map(all) =~= change_set(table, obs, keys));
        }
    }
}

/// Where no field is tracked twice, the reported list is the tracked fields
/// that changed, in tracked order, each with its observed value.
pub proof fn lemma_changed_fields_of_distinct_keys(
    table: Map<Seq<char>, Seq<u8>>,
    obs: Map<Seq<char>, Seq<char>>,
    keys: Seq<Seq<char>>,
)
    requires
        keys.no_duplicates(),
    ensures
        changed_fields(table, obs, keys) == keys.filter(
            |name: Seq<char>| changed(table, obs, name),
        ).map_values(|name: Seq<char>| (name, obs[name])),
    decreases keys.len(),
{
    let is_changed = |name: Seq<char>| changed(table, obs, name);
    let with_value = |name: Seq<char>| (name, obs[name]);
    reveal(Seq::filter);
    if keys.len() == 0 {
        assert(changed_fields(table, obs, keys) =~= keys.filter(is_changed).map_values(with_value));
    } else {
        let shorter = keys.drop_last();
        let name = keys.last();
        lemma_changed_fields_of_distinct_keys(table, obs, shorter);
        assert(!shorter.contains(name)) by {
            if shorter.contains(name) {
                let i = choose|i: int| 0 <= i < shorter.len() && shorter[i] == name;
                assert(keys[i] == keys[keys.len() - 1]);
            }
        }
        assert(changed_fields(table, obs, keys) =~= keys.filter(is_changed).map_values(with_value));
    }
}

/// Where no tracked field changed, nothing is reported.
pub proof fn lemma_nothing_changed(
    table: Map<Seq<char>, Seq<u8>>,
    obs: Map<Seq<char>, Seq<char>>,
    keys: Seq<Seq<char>>,
)
    requires
        forall|name: Seq<char>| keys.contains(name) ==> !changed(table, obs, name),
    ensures
        changed_fields(table, obs, keys) == Seq::<(Seq<char>, Seq<char>)>::empty(),
        change_set(table, obs, keys) == Map::<Seq<char>, Seq<char>>::empty(),
{
    lemma_changed_fields_as_map(table, obs, keys);
    let all = changed_fields(table, obs, keys);
    if all.len() > 0 {
        assert(keys.contains(all[0].0));
    }
    assert(all =~= Seq::<(Seq<char>, Seq<char>)>::empty());
    assert(change_set(table, obs, keys) =~= Map::<Seq<char>, Seq<char>>::empty());
}

/// Baseline: against an empty table the change set is the observation
/// restricted to the tracked fields. Where the observation has every
/// tracked field, each of them is reported.
pub proof fn lemma_baseline(obs: Map<Seq<char>, Seq<char>>, keys: Seq<Seq<char>>)
    ensures
        change_set(Map::empty(), obs, keys) == obs.restrict(keys.to_set()),
        as_map(changed_fields(Map::empty(), obs, keys)) == obs.restrict(keys.to_set()),
        (forall|name: Seq<char>| keys.contains(name) ==> obs.contains_key(name)) ==> change_set(
            Map::empty(),
            obs,
            keys,
        ).dom() == keys.to_set(),
{
    let empty = Map::<Seq<char>, Seq<u8>>::empty();
    lemma_changed_fields_as_map(empty, obs, keys);
    assert(change_set(empty, obs, keys) =~= obs.restrict(keys.to_set()));
    if forall|name: Seq<char>| keys.contains(name) ==> obs.contains_key(name) {
        assert(change_set(empty, obs, keys).dom() =~= keys.to_set());
    }
}

/// An observation that is seen twice in a row changes nothing the second
/// time: nothing is reported, and the table stays as it is.
pub proof fn lemma_same_observation_again(
    table: Map<Seq<char>, Seq<u8>>,
    obs: Map<Seq<char>, Seq<char>>,
    keys: Seq<Seq<char>>,
)
    ensures
        changed_fields(table_after(table, obs, keys), obs, keys) == Seq::<
            (Seq<char>, Seq<char>),
        >::empty(),
        change_set(table_after(table, obs, keys), obs, keys) == Map::<
            Seq<char>,
            Seq<char>,
        >::empty(),
        table_after(table_after(table, obs, keys), obs, keys) == table_after(table, obs, keys),
{
    let once = table_after(table, obs, keys);
    lemma_nothing_changed(once, obs, keys);
    assert(table_after(once, obs, keys) =~= once);
}

/// Stability: a requester that has seen the same observation one or more
/// times, and nothing else, reports nothing when it sees it once more.
pub proof fn lemma_stability(
    history: Seq<Map<Seq<char>, Seq<char>>>,
    obs: Map<Seq<char>, Seq<char>>,
    keys: Seq<Seq<char>>,
)
    requires
        history.len() > 0,
        forall|i: int| 0 <= i < history.len() ==> history[i] == obs,
    ensures
        changed_fields(table_of(history, keys), obs, keys) == Seq::<(Seq<char>, Seq<char>)>::empty(),
        change_set(table_of(history, keys), obs, keys) == Map::<Seq<char>, Seq<char>>::empty(),
        table_of(history.push(obs), keys) == table_of(history, keys),
{
    assert(history.last() == obs);
    lemma_same_observation_again(table_of(history.drop_last(), keys), obs, keys);
    assert(history.push(obs).drop_last() =~= history);
}

/// Change detection: two observations in a row that differ in the value of
/// one tracked field `name`, and in no other tracked field, make the second
/// cycle report exactly `name` with its new value.
///
/// The two values of `name` must have different fingerprints: two values
/// with one fingerprint cannot be told apart.
pub proof fn lemma_single_change(
    table: Map<Seq<char>, Seq<u8>>,
    before: Map<Seq<char>, Seq<char>>,
    after: Map<Seq<char>, Seq<char>>,
    keys: Seq<Seq<char>>,
    name: Seq<char>,
)
    requires
        keys.contains(name),
        before.contains_key(name),
        after.contains_key(name),
        before[name] != after[name],
        forall|other: Seq<char>|
            keys.contains(other) && other != name ==> before.contains_key(other)
                == after.contains_key(other) && (after.contains_key(other) ==> before[other]
                == after[other]),
        fingerprint_of(before[name]) != fingerprint_of(after[name]),
    ensures
        changed_fields(table_after(table, before, keys), after, keys) == seq![(name, after[name])],
        change_set(table_after(table, before, keys), after, keys) == map![name => after[name]],
{
    let once = table_after(table, before, keys);
    let all = changed_fields(once, after, keys);
    lemma_changed_fields_as_map(once, after, keys);
    assert(changed(once, after, name));
    assert(change_set(once, after, keys) =~= map![name => after[name]]);
    assert(as_map(all).contains_key(name));
    assert(all.len() == 1) by {
        if all.len() > 1 {
            assert(all[0].0 == name);
            assert(all[1].0 == name);
        }
    }
    assert(all[0].0 == name);
    assert(all =~= seq![(name, after[name])]);
}

/// Missing-field tolerance: a field that the observation lacks is not
/// reported, and its entry in the table, or the want of one, stays as it
/// is. If it is tracked, it is listed as missing.
pub proof fn lemma_missing_field(
    table: Map<Seq<char>, Seq<u8>>,
    obs: Map<Seq<char>, Seq<char>>,
    keys: Seq<Seq<char>>,
    name: Seq<char>,
)
    requires
        !obs.contains_key(name),
    ensures
        !change_set(table, obs, keys).contains_key(name),
        forall|i: int|
            0 <= i < changed_fields(table, obs, keys).len() ==> (#[trigger] changed_fields(
                table,
                obs,
                keys,
            )[i]).0 != name,
        table_after(table, obs, keys).contains_key(name) == table.contains_key(name),
        table.contains_key(name) ==> table_after(table, obs, keys)[name] == table[name],
        missing_fields(obs, keys).contains(name) == keys.contains(name),
{
    lemma_changed_fields_as_map(table, obs, keys);
    let lacks = |name: Seq<char>| !obs.contains_key(name);
    if keys.contains(name) {
        let i = choose|i: int| 0 <= i < keys.len() && keys[i] == name;
        keys.lemma_filter_contains(lacks, i);
    }
    if missing_fields(obs, keys).contains(name) {
        keys.lemma_filter_contains_rev(lacks, name);
    }
}

/// A field has an entry in the table exactly if it is tracked and some
/// observation so far had it; the entry is the fingerprint of the value in
/// the latest such observation.
pub proof fn lemma_table_of_history(
    history: Seq<Map<Seq<char>, Seq<char>>>,
    keys: Seq<Seq<char>>,
    name: Seq<char>,
)
    ensures
        table_of(history, keys).contains_key(name) <==> keys.contains(name) && exists|i: int|
            0 <= i < history.len() && #[trigger] history[i].contains_key(name),
        table_of(history, keys).contains_key(name) ==> exists|i: int|
            {
                &&& 0 <= i < history.len()
                &&& #[trigger] history[i].contains_key(name)
                &&& table_of(history, keys)[name] == fingerprint_of(history[i][name])
                &&& forall|j: int| i < j < history.len() ==> !#[trigger] history[j].contains_key(name)
            },
    decreases history.len(),
{
    if history.len() > 0 {
        let earlier = history.drop_last();
        let last = history.len() - 1;
        lemma_table_of_history(earlier, keys, name);
        if table_of(history, keys).contains_key(name) {
            if keys.contains(name) && history[last].contains_key(name) {
                assert(table_of(history, keys)[name] == fingerprint_of(history[last][name]));
            } else {
                let i = choose|i: int|
                    {
                        &&& 0 <= i < earlier.len()
                        &&& #[trigger] earlier[i].contains_key(name)
                        &&& table_of(earlier, keys)[name] == fingerprint_of(earlier[i][name])
                        &&& forall|j: int|
                            i < j < earlier.len() ==> !#[trigger] earlier[j].contains_key(name)
                    };
                assert(history[i].contains_key(name));
                assert forall|j: int| i < j < history.len() implies !#[trigger] history[j].contains_key(
                    name,
                ) by {
                    if j < last {
                        assert(!earlier[j].contains_key(name));
                    }
                }
            }
        }
        if keys.contains(name) && exists|i: int|
            0 <= i < history.len() && #[trigger] history[i].contains_key(name) {
            let i = choose|i: int| 0 <= i < history.len() && #[trigger] history[i].contains_key(name);
            if i < last {
                assert(earlier[i].contains_key(name));
            }
        }
    }
}

} // verus!
