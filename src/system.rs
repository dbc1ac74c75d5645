use vstd::prelude::*;
use crate::credential_ledger::{held_by, views_of, CredentialLedger};
use crate::request_ledger::RequestLedger;
use crate::types::{AccountId, Balance, Credential, CredentialType, CredentialView, Error, RequestKey};

verus! {

/// The least value a request must carry, in the host's smallest unit.
pub const MINIMUM_FEE: Balance = 2_000_000_000_000;

/// Whether an account passes identity verification. Every account does for
/// now: no attestation service is wired in.
pub open spec fn identity_verified(account: AccountId) -> bool {
    true
}

/// The state of the two ledgers.
pub ghost struct Ledgers {
    /// Pending requests and their metadata.
    pub pending: Map<RequestKey, Seq<char>>,
    /// Issued credentials, in issuance order.
    pub issued: Seq<CredentialView>,
}

/// The key under which `holder` asks `issuer` for a credential of type `t`.
pub open spec fn key_of(holder: AccountId, issuer: AccountId, t: CredentialType) -> RequestKey {
    RequestKey { holder, issuer, credential_type: t }
}

/// What was pending at `key`, if anything.
pub open spec fn pending_at(s: Ledgers, key: RequestKey) -> Option<Seq<char>> {
    if s.pending.contains_key(key) {
        Some(s.pending[key])
    } else {
        None
    }
}

/// A request by `caller` to `issuer` for type `t`, carrying `value`: the
/// outcome and the ledgers after it, before the fee has moved.
pub open spec fn request_step(
    s: Ledgers,
    caller: AccountId,
    value: Balance,
    issuer: AccountId,
    t: CredentialType,
    metadata: Seq<char>,
) -> (Result<(), Error>, Ledgers) {
    if !identity_verified(caller) || !identity_verified(issuer) {
        (Err(Error::IdentityRequired), s)
    } else if value < MINIMUM_FEE {
        (Err(Error::InsufficientFee), s)
    } else {
        (Ok(()), Ledgers { pending: s.pending.insert(key_of(caller, issuer, t), metadata), ..s })
    }
}

/// The end of a request once the host has tried to move its fee: kept when
/// the fee moved, otherwise undone by putting back at `key` what was
/// pending there before (`displaced`).
pub open spec fn settle_step(
    s: Ledgers,
    key: RequestKey,
    displaced: Option<Seq<char>>,
    transferred: bool,
) -> (Result<(), Error>, Ledgers) {
    if transferred {
        (Ok(()), s)
    } else {
        let pending = match displaced {
            Some(m) => s.pending.insert(key, m),
            None => s.pending.remove(key),
        };
        (Err(Error::TransferFailed), Ledgers { pending, ..s })
    }
}

/// Issuance by `caller` to `user` of a credential of type `t` at time `now`:
/// the outcome and the ledgers after it.
pub open spec fn issue_step(
    s: Ledgers,
    caller: AccountId,
    now: u64,
    user: AccountId,
    t: CredentialType,
) -> (Result<(), Error>, Ledgers) {
    let key = key_of(user, caller, t);
    if !identity_verified(caller) || !identity_verified(user) {
        (Err(Error::IdentityRequired), s)
    } else if !s.pending.contains_key(key) {
        (Err(Error::NoRequest), s)
    } else {
        let c = CredentialView {
            issued_to: user,
            issued_by: caller,
            credential_type: t,
            metadata: s.pending[key],
            timestamp: now,
        };
        (Ok(()), Ledgers { pending: s.pending.remove(key), issued: s.issued.push(c) })
    }
}

/// The credentials of `user`, in issuance order.
pub open spec fn credentials_of(s: Ledgers, user: AccountId) -> Seq<CredentialView> {
    held_by(s.issued, user)
}

/// The outcome of an operation without its value.
pub open spec fn outcome<T>(r: Result<T, Error>) -> Result<(), Error> {
    match r {
        Ok(_) => Ok(()),
        Err(e) => Err(e),
    }
}

/// What a request metadata string holds, if there is one.
pub open spec fn text_of(o: Option<String>) -> Option<Seq<char>> {
    match o {
        Some(m) => Some(m@),
        None => None,
    }
}

/// The fee movement that an accepted request asks the host to carry out,
/// with what it takes to undo the request should the movement fail.
pub struct FeeTransfer {
    /// The account that receives the fee: the issuer.
    pub to: AccountId,
    /// The whole value that came with the request.
    pub amount: Balance,
    /// Where the request was written.
    pub key: RequestKey,
    /// What was pending at `key` before the request replaced it.
    pub displaced: Option<String>,
}

/// The request ledger and the credential ledger, with the operations that
/// move between them.
pub struct CredentialSystem {
    credentials: CredentialLedger,
    requests: RequestLedger,
}

impl View for CredentialSystem {
    type V = Ledgers;

    closed spec fn view(&self) -> Ledgers {
        Ledgers { pending: self.requests@, issued: self.credentials@ }
    }
}

impl CredentialSystem {
    /// Both ledgers empty.
    pub fn new() -> (r: CredentialSystem)
        ensures
            r@.pending == Map::<RequestKey, Seq<char>>::empty(),
            r@.issued == Seq::<CredentialView>::empty(),
    {
        CredentialSystem { credentials: CredentialLedger::new(), requests: RequestLedger::new() }
    }

    /// The identity check that both parties of a call must pass.
    fn has_identity(&self, account: &AccountId) -> (r: bool)
        ensures
            r == identity_verified(*account),
    {
        true
    }

    /// `caller` asks `issuer` for a credential of type `cred_type`, attaching
    /// `transferred_value`. On success the request is pending, replacing any
    /// earlier one at the same key, and the host is to move the whole value
    /// to the issuer, then report back through `settle_fee_transfer`.
    pub fn request_credential(
        &mut self,
        caller: AccountId,
        transferred_value: Balance,
        issuer: AccountId,
        cred_type: CredentialType,
        metadata: String,
    ) -> (r: Result<FeeTransfer, Error>)
        ensures
            (outcome(r), final(self)@) == request_step(
                old(self)@,
                caller,
                transferred_value,
                issuer,
                cred_type,
                metadata@,
            ),
            r matches Ok(t) ==> t.to == issuer && t.amount == transferred_value && t.key == key_of(
                caller,
                issuer,
                cred_type,
            ) && text_of(t.displaced) == pending_at(old(self)@, t.key),
    {
        if !self.has_identity(&caller) || !self.has_identity(&issuer) {
            return Err(Error::IdentityRequired);
        }
        if transferred_value < MINIMUM_FEE {
            return Err(Error::InsufficientFee);
        }
        let key = RequestKey { holder: caller, issuer, credential_type: cred_type };
        let displaced = self.requests.get(&key);
        self.requests.insert(key, metadata);
        Ok(FeeTransfer { to: issuer, amount: transferred_value, key, displaced })
    }

    /// Ends the request that `transfer` came from: keeps it when the host
    /// moved the fee, and otherwise undoes it and fails.
    pub fn settle_fee_transfer(
        &mut self,
        transfer: FeeTransfer,
        transferred: bool,
    ) -> (r: Result<(), Error>)
        ensures
            (r, final(self)@) == settle_step(
                old(self)@,
                transfer.key,
                text_of(transfer.displaced),
                transferred,
            ),
    {
        if transferred {
            return Ok(());
        }
        match transfer.displaced {
            Some(m) => self.requests.insert(transfer.key, m),
            None => self.requests.remove(&transfer.key),
        }
        Err(Error::TransferFailed)
    }

    /// `caller` fulfils the request of `user` for a credential of type
    /// `cred_type`: the credential, with the request's metadata and time
    /// `block_timestamp`, is appended to the ledger and the request is gone.
    pub fn issue_credential(
        &mut self,
        caller: AccountId,
        block_timestamp: u64,
        user: AccountId,
        cred_type: CredentialType,
    ) -> (r: Result<(), Error>)
        ensures
            (r, final(self)@) == issue_step(old(self)@, caller, block_timestamp, user, cred_type),
    {
        if !self.has_identity(&caller) || !self.has_identity(&user) {
            return Err(Error::IdentityRequired);
        }
        let key = RequestKey { holder: user, issuer: caller, credential_type: cred_type };
        let metadata = match self.requests.get(&key) {
            Some(m) => m,
            None => return Err(Error::NoRequest),
        };
        let credential = Credential {
            issued_to: user,
            issued_by: caller,
            credential_type: cred_type,
            metadata,
            timestamp: block_timestamp,
        };
        self.credentials.append(credential);
        self.requests.remove(&key);
        assert(self@ == issue_step(old(self)@, caller, block_timestamp, user, cred_type).1);
        Ok(())
    }

    /// The credentials issued to `user`, in issuance order; empty if none.
    pub fn get_credentials(&self, user: AccountId) -> (r: Vec<Credential>)
        ensures
            views_of(r@) == credentials_of(self@, user),
    {
        self.credentials.held_by(&user)
    }
}

} // verus!
