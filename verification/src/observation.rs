//! One fetched JSON object: a mapping from field name to string value.

use vstd::hash_map::StringHashMap;
use vstd::prelude::*;

verus! {

/// The top-level fields of one fetched JSON object.
pub struct Observation {
    fields: StringHashMap<String>,
}

impl View for Observation {
    type V = Map<Seq<char>, Seq<char>>;

    /// The observation as a map from field name to value.
    closed spec fn view(&self) -> Map<Seq<char>, Seq<char>> {
        self.fields@.map_values(|value: String| value@)
    }
}

impl Observation {
    /// An observation without fields.
    pub fn new() -> (obs: Observation)
        ensures
            obs@ == Map::<Seq<char>, Seq<char>>::empty(),
    {
        let obs = Observation { fields: StringHashMap::new() };
        assert(obs@ =~= Map::<Seq<char>, Seq<char>>::empty());
        obs
    }

    /// Sets field `name` to `value`, replacing an earlier value of that field.
    pub fn insert(&mut self, name: String, value: String)
        ensures
            final(self)@ == old(self)@.insert(name@, value@),
    {
        self.fields.insert(name, value);
        assert(self@ =~= old(self)@.insert(name@, value@));
    }

    /// The value of field `name`, if the observation has that field.
    pub fn get(&self, name: &str) -> (value: Option<&String>)
        ensures
            match value {
                Some(v) => self@.contains_key(name@) && v@ == self@[name@],
                None => !self@.contains_key(name@),
            },
    {
        self.fields.get(name)
    }
}

} // verus!
