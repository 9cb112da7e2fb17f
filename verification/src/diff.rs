//! What one cycle reports and remembers, stated over maps and sequences.
//!
//! A fingerprint table maps a field name to the fingerprint of the value last
//! seen for it; an observation maps a field name to its value; the tracked
//! fields are a sequence of names, in the order in which they are reported.

use crate::fingerprint::fingerprint_of;
use crate::table::differs;
use vstd::prelude::*;

verus! {

/// Field `name` counts as changed: the observation has it, and the table has
/// no fingerprint for it or another one than that of the observed value.
pub open spec fn changed(
    table: Map<Seq<char>, Seq<u8>>,
    obs: Map<Seq<char>, Seq<char>>,
    name: Seq<char>,
) -> bool {
    obs.contains_key(name) && differs(table, name, fingerprint_of(obs[name]))
}

/// The table after one cycle: every tracked field that the observation has
/// holds the fingerprint of the observed value, all else is as before.
pub open spec fn table_after(
    table: Map<Seq<char>, Seq<u8>>,
    obs: Map<Seq<char>, Seq<char>>,
    keys: Seq<Seq<char>>,
) -> Map<Seq<char>, Seq<u8>> {
    Map::new(
        |name: Seq<char>| table.contains_key(name) || (keys.contains(name) && obs.contains_key(name)),
        |name: Seq<char>|
            if keys.contains(name) && obs.contains_key(name) {
                fingerprint_of(obs[name])
            } else {
                table[name]
            },
    )
}

/// The changes of one cycle as a mapping: the tracked fields that changed,
/// each with its observed value.
pub open spec fn change_set(
    table: Map<Seq<char>, Seq<u8>>,
    obs: Map<Seq<char>, Seq<char>>,
    keys: Seq<Seq<char>>,
) -> Map<Seq<char>, Seq<char>> {
    Map::new(
        |name: Seq<char>| keys.contains(name) && changed(table, obs, name),
        |name: Seq<char>| obs[name],
    )
}

/// The changes of one cycle in the order in which they are reported: the
/// tracked fields that changed, each once, at the place where it is first
/// tracked, and each with its observed value.
pub open spec fn changed_fields(
    table: Map<Seq<char>, Seq<u8>>,
    obs: Map<Seq<char>, Seq<char>>,
    keys: Seq<Seq<char>>,
) -> Seq<(Seq<char>, Seq<char>)>
    decreases keys.len(),
{
    if keys.len() == 0 {
        Seq::empty()
    } else {
        let earlier = changed_fields(table, obs, keys.drop_last());
        let name = keys.last();
        if !keys.drop_last().contains(name) && changed(table, obs, name) {
            earlier.push((name, obs[name]))
        } else {
            earlier
        }
    }
}

/// The tracked fields that the observation lacks, in tracked order.
pub open spec fn missing_fields(obs: Map<Seq<char>, Seq<char>>, keys: Seq<Seq<char>>) -> Seq<
    Seq<char>,
> {
    keys.filter(|name: Seq<char>| !obs.contains_key(name))
}

/// The table of a requester that started empty and saw `history`, oldest
/// observation first.
pub open spec fn table_of(history: Seq<Map<Seq<char>, Seq<char>>>, keys: Seq<Seq<char>>) -> Map<
    Seq<char>,
    Seq<u8>,
>
    decreases history.len(),
{
    if history.len() == 0 {
        Map::empty()
    } else {
        table_after(table_of(history.drop_last(), keys), history.last(), keys)
    }
}

/// A list of pairs read as a mapping; of two pairs with one name the later
/// one counts.
pub open spec fn as_map(pairs: Seq<(Seq<char>, Seq<char>)>) -> Map<Seq<char>, Seq<char>>
    decreases pairs.len(),
{
    if pairs.len() == 0 {
        Map::empty()
    } else {
        as_map(pairs.drop_last()).insert(pairs.last().0, pairs.last().1)
    }
}

/// Tracking one more field `name` after `keys`: what it adds to the table,
/// to the reported changes and to the missing fields.
pub proof fn lemma_one_more_field(
    table: Map<Seq<char>, Seq<u8>>,
    obs: Map<Seq<char>, Seq<char>>,
    keys: Seq<Seq<char>>,
    name: Seq<char>,
)
    ensures
        changed(table_after(table, obs, keys), obs, name) <==> !keys.contains(name) && changed(
            table,
            obs,
            name,
        ),
        table_after(table, obs, keys.push(name)) == if obs.contains_key(name) {
            table_after(table, obs, keys).insert(name, fingerprint_of(obs[name]))
        } else {
            table_after(table, obs, keys)
        },
        changed_fields(table, obs, keys.push(name)) == if changed(
            table_after(table, obs, keys),
            obs,
            name,
        ) {
            changed_fields(table, obs, keys).push((name, obs[name]))
        } else {
            changed_fields(table, obs, keys)
        },
        missing_fields(obs, keys.push(name)) == if obs.contains_key(name) {
            missing_fields(obs, keys)
        } else {
            missing_fields(obs, keys).push(name)
        },
{
    let longer = keys.push(name);
    assert(longer.drop_last() =~= keys);
    assert(longer.last() == name);
    assert forall|other: Seq<char>| longer.contains(other) <==> keys.contains(other) || other
        == name by {
        if keys.contains(other) {
            let i = choose|i: int| 0 <= i < keys.len() && keys[i] == other;
            assert(longer[i] == other);
        }
        if other == name {
            assert(longer[keys.len() as int] == other);
        }
    }
    if obs.contains_key(name) {
        assert(table_after(table, obs, longer) =~= table_after(table, obs, keys).insert(
            name,
            fingerprint_of(obs[name]),
        ));
    } else {
        assert(table_after(table, obs, longer) =~= table_after(table, obs, keys));
    }
    keys.lemma_filter_push(name, |name: Seq<char>| !obs.contains_key(name));
}

} // verus!
