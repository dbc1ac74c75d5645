use vstd::prelude::*;
use crate::types::RequestKey;

verus! {

/// A pending request: its key and the metadata the holder attached.
#[derive(Clone, Debug)]
pub struct PendingRequest {
    pub key: RequestKey,
    pub metadata: String,
}

impl PendingRequest {
    /// A fresh copy with the same key and the same metadata.
    pub fn duplicate(&self) -> (r: PendingRequest)
        ensures
            r.key == self.key,
            r.metadata@ == self.metadata@,
    {
        PendingRequest { key: self.key, metadata: self.metadata.clone() }
    }
}

/// What a run of entries holds: each key maps to the metadata of its last
/// entry, so a later write at a key replaces an earlier one.
pub open spec fn entries_map(s: Seq<PendingRequest>) -> Map<RequestKey, Seq<char>>
    decreases s.len(),
{
    if s.len() == 0 {
        Map::empty()
    } else {
        entries_map(s.drop_last()).insert(s.last().key, s.last().metadata@)
    }
}

/// The pending requests, keyed by (holder, issuer, type), each with its
/// metadata.
pub struct RequestLedger {
    entries: Vec<PendingRequest>,
}

impl View for RequestLedger {
    type V = Map<RequestKey, Seq<char>>;

    closed spec fn view(&self) -> Map<RequestKey, Seq<char>> {
        entries_map(self.entries@)
    }
}

proof fn lemma_entries_map_push(s: Seq<PendingRequest>, e: PendingRequest)
    ensures
        entries_map(s.push(e)) == entries_map(s).insert(e.key, e.metadata@),
{
    assert(s.push(e).drop_last() =~= s);
}

impl RequestLedger {
    /// An empty ledger.
    pub fn new() -> (r: RequestLedger)
        ensures
            r@ == Map::<RequestKey, Seq<char>>::empty(),
    {
        RequestLedger { entries: Vec::new() }
    }

    /// The metadata pending at `key`, if any.
    pub fn get(&self, key: &RequestKey) -> (r: Option<String>)
        ensures
            match r {
                Some(m) => self@.contains_key(*key) && self@[*key] == m@,
                None => !self@.contains_key(*key),
            },
    {
        let mut found: Option<String> = None;
        let mut i: usize = 0;
        while i < self.entries.len()
            invariant
                0 <= i <= self.entries@.len(),
                match found {
                    Some(m) => entries_map(self.entries@.take(i as int)).contains_key(*key)
                        && entries_map(self.entries@.take(i as int))[*key] == m@,
                    None => !entries_map(self.entries@.take(i as int)).contains_key(*key),
                },
            decreases self.entries@.len() - i,
        {
            assert(self.entries@.take(i as int + 1) =~= self.entries@.take(i as int).push(
                self.entries@[i as int],
            ));
            proof {
                lemma_entries_map_push(self.entries@.take(i as int), self.entries@[i as int]);
            }
            if self.entries[i].key.same_as(key) {
                found = Some(self.entries[i].metadata.clone());
            }
            i = i + 1;
        }
        assert(self.entries@.take(i as int) =~= self.entries@);
        found
    }

    /// Drops whatever is pending at `key`.
    pub fn remove(&mut self, key: &RequestKey)
        ensures
            final(self)@ == old(self)@.remove(*key),
    {
        let ghost old_entries = self.entries@;
        let mut kept: Vec<PendingRequest> = Vec::new();
        let mut i: usize = 0;
        while i < self.entries.len()
            invariant
                0 <= i <= self.entries@.len(),
                self.entries@ == old_entries,
                entries_map(kept@) == entries_map(old_entries.take(i as int)).remove(*key),
            decreases self.entries@.len() - i,
        {
            let e = self.entries[i].duplicate();
            assert(old_entries.take(i as int + 1) =~= old_entries.take(i as int).push(
                old_entries[i as int],
            ));
            proof {
                lemma_entries_map_push(old_entries.take(i as int), old_entries[i as int]);
            }
            if !e.key.same_as(key) {
                proof {
                    lemma_entries_map_push(kept@, e);
                }
                kept.push(e);
                assert(entries_map(kept@) =~= entries_map(old_entries.take(i as int + 1)).remove(
                    *key,
                ));
            } else {
                assert(entries_map(kept@) =~= entries_map(old_entries.take(i as int + 1)).remove(
                    *key,
                ));
            }
            i = i + 1;
        }
        assert(old_entries.take(i as int) =~= old_entries);
        self.entries = kept;
    }

    /// Puts `metadata` at `key`, replacing whatever was pending there.
    pub fn insert(&mut self, key: RequestKey, metadata: String)
        ensures
            final(self)@ == old(self)@.insert(key, metadata@),
    {
        self.remove(&key);
        let e = PendingRequest { key, metadata };
        proof {
            lemma_entries_map_push(self.entries@, e);
        }
        self.entries.push(e);
        assert(self@ =~= old(self)@.insert(key, metadata@));
    }
}

} // verus!
