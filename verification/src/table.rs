//! The fingerprint table: for each field, the fingerprint last stored for it.

use vstd::hash_map::StringHashMap;
use vstd::prelude::*;
use vstd::std_specs::cmp::PartialEqSpec;

verus! {

/// Fingerprint `fp` is news for field `name`: the table has no entry for
/// the field, or another fingerprint.
pub open spec fn differs(table: Map<Seq<char>, Seq<u8>>, name: Seq<char>, fp: Seq<u8>) -> bool {
    !(table.contains_key(name) && table[name] == fp)
}

/// A mapping from field name to fingerprint.
pub struct FingerprintTable {
    entries: StringHashMap<Vec<u8>>,
}

impl View for FingerprintTable {
    type V = Map<Seq<char>, Seq<u8>>;

    /// The table as a map from field name to the bytes of its fingerprint.
    closed spec fn view(&self) -> Map<Seq<char>, Seq<u8>> {
        self.entries@.map_values(|fp: Vec<u8>| fp@)
    }
}

impl FingerprintTable {
    /// A table without entries.
    pub fn new() -> (table: FingerprintTable)
        ensures
            table@ == Map::<Seq<char>, Seq<u8>>::empty(),
    {
        let table = FingerprintTable { entries: StringHashMap::new() };
        assert(table@ =~= Map::<Seq<char>, Seq<u8>>::empty());
        table
    }

    /// The fingerprint stored for field `name`, if there is one.
    pub fn get(&self, name: &str) -> (fp: Option<&Vec<u8>>)
        ensures
            match fp {
                Some(bytes) => self@.contains_key(name@) && bytes@ == self@[name@],
                None => !self@.contains_key(name@),
            },
    {
        self.entries.get(name)
    }

    /// Stores `fp` for field `name` and says whether that was news: whether
    /// the field had no entry, or one with other bytes.
    pub fn update(&mut self, name: &str, fp: Vec<u8>) -> (news: bool)
        ensures
            news == differs(old(self)@, name@, fp@),
            final(self)@ == if news {
                old(self)@.insert(name@, fp@)
            } else {
                old(self)@
            },
    {
        let news = match self.entries.get(name) {
            Some(prev) => {
                assert(fp.eq_spec(prev) <==> fp@ =~= prev@);
                !fp.eq(prev)
            },
            None => true,
        };
        if news {
            self.entries.insert(name.to_owned(), fp);
            assert(self@ =~= old(self)@.insert(name@, fp@));
        }
        news
    }
}

} // verus!
