//! The table from incoming host to upstream target.
use vstd::prelude::*;
use vstd::hash_map::StringHashMap;

use crate::uri::{UriParts, UriView};

verus! {

/// Where requests for one host go, and whether the upstream's certificate
/// is accepted without validation.
#[derive(Clone, Debug)]
pub struct AddressParams {
    pub uri: UriParts,
    pub is_dangerous: bool,
}

/// The mathematical value of [`AddressParams`].
pub struct AddressView {
    pub uri: UriView,
    pub is_dangerous: bool,
}

impl View for AddressParams {
    type V = AddressView;

    open spec fn view(&self) -> AddressView {
        AddressView { uri: self.uri@, is_dangerous: self.is_dangerous }
    }
}

/// Upstream targets keyed by host text.
pub struct AddressMap {
    entries: StringHashMap<AddressParams>,
}

impl View for AddressMap {
    type V = Map<Seq<char>, AddressView>;

    closed spec fn view(&self) -> Map<Seq<char>, AddressView> {
        self.entries@.map_values(|p: AddressParams| p@)
    }
}

impl AddressMap {
    /// An empty table.
    pub fn new() -> (m: AddressMap)
        ensures
            m@ == Map::<Seq<char>, AddressView>::empty(),
    {
        let m = AddressMap { entries: StringHashMap::new() };
        assert(m@ =~= Map::<Seq<char>, AddressView>::empty());
        m
    }

    /// Sets the target of `host`, replacing any earlier one.
    pub fn insert(&mut self, host: String, params: AddressParams)
        ensures
            final(self)@ == old(self)@.insert(host@, params@),
    {
        let ghost v = params@;
        self.entries.insert(host, params);
        assert(self@ =~= old(self)@.insert(host@, v));
    }

    /// The target of `host`, if any.
    pub fn get(&self, host: &str) -> (r: Option<&AddressParams>)
        ensures
            match r {
                Some(p) => self@.contains_key(host@) && self@[host@] == p@,
                None => !self@.contains_key(host@),
            },
    {
        self.entries.get(host)
    }

    /// The number of hosts in the table.
    pub fn len(&self) -> (n: usize)
        ensures
            n == self@.len(),
    {
        proof {
            broadcast use vstd::hash_map::group_hash_map_axioms;
            assert(self@.dom() =~= self.entries@.dom());
        }
        self.entries.len()
    }
}

/// What one configured pair contributes to a table: the key and target
/// it goes in with, or the error that stops the building of the table.
pub type EntryOutcome = Result<(Seq<char>, UriView), Seq<char>>;

/// Inserting entries in order into `m`: the table when the entries run out
/// or one is an error, and that error.
pub open spec fn insert_outcomes(
    m: Map<Seq<char>, AddressView>,
    outcomes: Seq<EntryOutcome>,
    is_dangerous: bool,
) -> (Map<Seq<char>, AddressView>, Option<Seq<char>>)
    decreases outcomes.len(),
{
    if outcomes.len() == 0 {
        (m, None)
    } else {
        match outcomes[0] {
            Err(e) => (m, Some(e)),
            Ok((key, target)) => insert_outcomes(
                m.insert(key, AddressView { uri: target, is_dangerous }),
                outcomes.drop_first(),
                is_dangerous,
            ),
        }
    }
}

} // verus!
