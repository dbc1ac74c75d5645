use vstd::prelude::*;
use crate::types::{AccountId, Credential, CredentialView};

verus! {

/// What a list of credentials states, in order.
pub open spec fn views_of(v: Seq<Credential>) -> Seq<CredentialView> {
    v.map_values(|c: Credential| c@)
}

/// The credentials of a log that were issued to `holder`, in log order.
pub open spec fn held_by(log: Seq<CredentialView>, holder: AccountId) -> Seq<CredentialView>
    decreases log.len(),
{
    if log.len() == 0 {
        Seq::empty()
    } else if log.last().issued_to == holder {
        held_by(log.drop_last(), holder).push(log.last())
    } else {
        held_by(log.drop_last(), holder)
    }
}

/// Appending a credential extends the holder's list by it, or leaves it.
pub proof fn lemma_held_by_push(log: Seq<CredentialView>, c: CredentialView, holder: AccountId)
    ensures
        held_by(log.push(c), holder) == if c.issued_to == holder {
            held_by(log, holder).push(c)
        } else {
            held_by(log, holder)
        },
{
    assert(log.push(c).drop_last() =~= log);
}

impl Credential {
    /// A fresh copy that states the same.
    pub fn duplicate(&self) -> (r: Credential)
        ensures
            r@ == self@,
    {
        Credential {
            issued_to: self.issued_to,
            issued_by: self.issued_by,
            credential_type: self.credential_type,
            metadata: self.metadata.clone(),
            timestamp: self.timestamp,
        }
    }
}

/// Every credential ever issued, in issuance order. Append-only.
pub struct CredentialLedger {
    log: Vec<Credential>,
}

impl View for CredentialLedger {
    type V = Seq<CredentialView>;

    closed spec fn view(&self) -> Seq<CredentialView> {
        views_of(self.log@)
    }
}

impl CredentialLedger {
    /// An empty ledger.
    pub fn new() -> (r: CredentialLedger)
        ensures
            r@ == Seq::<CredentialView>::empty(),
    {
        let r = CredentialLedger { log: Vec::new() };
        assert(r@ =~= Seq::<CredentialView>::empty());
        r
    }

    /// Records `c` after all earlier credentials.
    pub fn append(&mut self, c: Credential)
        ensures
            final(self)@ == old(self)@.push(c@),
    {
        self.log.push(c);
        assert(self@ =~= old(self)@.push(c@));
    }

    /// The credentials issued to `holder`, in issuance order.
    pub fn held_by(&self, holder: &AccountId) -> (r: Vec<Credential>)
        ensures
            views_of(r@) == held_by(self@, *holder),
    {
        let mut r: Vec<Credential> = Vec::new();
        let mut i: usize = 0;
        while i < self.log.len()
            invariant
                0 <= i <= self.log@.len(),
                views_of(r@) == held_by(self@.take(i as int), *holder),
            decreases self.log@.len() - i,
        {
            assert(self@.take(i as int + 1) =~= self@.take(i as int).push(self@[i as int]));
            proof {
                lemma_held_by_push(self@.take(i as int), self@[i as int], *holder);
            }
            let c = self.log[i].duplicate();
            if c.issued_to == *holder {
                assert(views_of(r@.push(c)) =~= views_of(r@).push(c@));
                r.push(c);
                assert(views_of(r@) =~= held_by(self@.take(i as int + 1), *holder));
            } else {
                assert(views_of(r@) =~= held_by(self@.take(i as int + 1), *holder));
            }
            i = i + 1;
        }
        assert(self@.take(i as int) =~= self@);
        r
    }
}

} // verus!
