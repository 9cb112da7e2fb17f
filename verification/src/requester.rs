//! The requester: what to fetch, which fields to track, and the fingerprint
//! of each tracked field as it was last seen.

use crate::diff::{
    as_map, change_set, changed_fields, lemma_one_more_field, missing_fields, table_after, table_of,
};
use crate::fingerprint::{fingerprint, FINGERPRINT_LEN};
use crate::laws::lemma_changed_fields_as_map;
use crate::observation::Observation;
use crate::table::FingerprintTable;
use vstd::prelude::*;

verus! {

/// What one cycle found.
#[derive(Debug, PartialEq, Eq)]
pub struct Report {
    /// The changed fields with their new values, in tracked order.
    pub changes: Vec<(String, String)>,
    /// The tracked fields that the observation lacked, in tracked order.
    pub missing: Vec<String>,
}

/// Tracks the values of some top-level fields of the JSON object at a URL.
pub struct Requester<'a> {
    /// Tracked field -> fingerprint of its value when last seen.
    json_hash: FingerprintTable,
    /// URL to fetch.
    url: &'a str,
    /// Query parameters of the request.
    params: &'a [(&'a str, &'a str)],
    /// The tracked fields.
    track_keys: &'a [&'a str],
    /// Every observation seen so far, oldest first.
    seen: Ghost<Seq<Map<Seq<char>, Seq<char>>>>,
}

impl<'a> Requester<'a> {
    /// The URL to fetch.
    pub closed spec fn url_view(&self) -> Seq<char> {
        self.url@
    }

    /// The query parameters of the request, as pairs of name and value.
    pub closed spec fn params_view(&self) -> Seq<(Seq<char>, Seq<char>)> {
        self.params.deep_view()
    }

    /// The names of the tracked fields, in the order given at construction.
    pub closed spec fn keys(&self) -> Seq<Seq<char>> {
        self.track_keys.deep_view()
    }

    /// The fingerprint table.
    pub closed spec fn table(&self) -> Map<Seq<char>, Seq<u8>> {
        self.json_hash@
    }

    /// The observations handed to `get_changes` so far, oldest first.
    pub closed spec fn history(&self) -> Seq<Map<Seq<char>, Seq<char>>> {
        self.seen@
    }

    /// The table is the one that the history gives, and every fingerprint
    /// in it has the full length.
    pub open spec fn wf(&self) -> bool {
        &&& self.table() == table_of(self.history(), self.keys())
        &&& forall|name: Seq<char>| #[trigger]
            self.table().contains_key(name) ==> self.table()[name].len() == FINGERPRINT_LEN
    }

    /// The requester is `other` but for the table and the history.
    pub open spec fn same_request(&self, other: &Self) -> bool {
        &&& self.url_view() == other.url_view()
        &&& self.params_view() == other.params_view()
        &&& self.keys() == other.keys()
    }

    /// Creates a requester that has seen nothing yet.
    pub fn new(url: &'a str, params: &'a [(&'a str, &'a str)], track_keys: &'a [&'a str]) -> (req:
        Self)
        ensures
            req.wf(),
            req.url_view() == url@,
            req.params_view() == params.deep_view(),
            req.keys() == track_keys.deep_view(),
            req.history() == Seq::<Map<Seq<char>, Seq<char>>>::empty(),
            req.table() == Map::<Seq<char>, Seq<u8>>::empty(),
    {
        let req = Requester {
            json_hash: FingerprintTable::new(),
            url,
            params,
            track_keys,
            seen: Ghost(Seq::empty()),
        };
        req
    }

    /// Compares the tracked fields of `json` with the fingerprint table,
    /// reports those that changed and remembers their new fingerprints.
    pub fn get_changes(&mut self, json: &Observation) -> (report: Report)
        requires
            old(self).wf(),
        ensures
            final(self).wf(),
            final(self).same_request(old(self)),
            final(self).history() == old(self).history().push(json@),
            final(self).table() == table_after(old(self).table(), json@, old(self).keys()),
            report.changes.deep_view() == changed_fields(
                old(self).table(),
                json@,
                old(self).keys(),
            ),
            as_map(report.changes.deep_view()) == change_set(
                old(self).table(),
                json@,
                old(self).keys(),
            ),
            report.missing.deep_view() == missing_fields(json@, old(self).keys()),
    {
        let mut changes: Vec<(String, String)> = Vec::new();
        let mut missing: Vec<String> = Vec::new();
        let ghost table0 = self.table();
        let ghost names = self.keys();
        assert(changes.deep_view() =~= changed_fields(table0, json@, names.take(0)));
        assert(missing.deep_view() =~= missing_fields(json@, names.take(0)));
        assert(self.table() =~= table_after(table0, json@, names.take(0)));
        let mut i: usize = 0;
        while i < self.track_keys.len()
            invariant
                i <= self.track_keys.len(),
                names == self.keys(),
                names.len() == self.track_keys.len(),
                self.same_request(old(self)),
                self.history() == old(self).history(),
                forall|name: Seq<char>| #[trigger]
                    self.table().contains_key(name) ==> self.table()[name].len()
                        == FINGERPRINT_LEN,
                self.table() == table_after(table0, json@, names.take(i as int)),
                changes.deep_view() == changed_fields(table0, json@, names.take(i as int)),
                missing.deep_view() == missing_fields(json@, names.take(i as int)),
            decreases self.track_keys.len() - i,
        {
            let key: &str = self.track_keys[i];
            proof {
                assert(key@ == names[i as int]);
                assert(names.take(i + 1) =~= names.take(i as int).push(key@));
                lemma_one_more_field(table0, json@, names.take(i as int), key@);
            }
            let ghost changes0 = changes.deep_view();
            let ghost missing0 = missing.deep_view();
            match json.get(key) {
                Some(s) => {
                    let cur_hash = fingerprint(s.as_str());
                    if self.json_hash.update(key, cur_hash) {
                        changes.push((key.to_owned(), s.clone()));
                        assert(changes.deep_view() =~= changes0.push((key@, s@)));
                    }
                },
                None => {
                    missing.push(key.to_owned());
                    assert(missing.deep_view() =~= missing0.push(key@));
                },
            }
            i += 1;
        }
        proof {
            assert(names.take(i as int) =~= names);
            lemma_changed_fields_as_map(table0, json@, names);
            assert(self.seen@.push(json@).drop_last() =~= self.seen@);
        }
        self.seen = Ghost(self.seen@.push(json@));
        Report { changes, missing }
    }

    /// The URL to fetch.
    pub fn url(&self) -> (url: &'a str)
        ensures
            url@ == self.url_view(),
    {
        self.url
    }

    /// The query parameters of the request.
    pub fn params(&self) -> (params: &'a [(&'a str, &'a str)])
        ensures
            params.deep_view() == self.params_view(),
    {
        self.params
    }

    /// The fingerprint remembered for field `name`, if there is one.
    pub fn remembered(&self, name: &str) -> (fp: Option<&Vec<u8>>)
        ensures
            match fp {
                Some(bytes) => self.table().contains_key(name@) && bytes@ == self.table()[name@],
                None => !self.table().contains_key(name@),
            },
    {
        self.json_hash.get(name)
    }
}

} // verus!
