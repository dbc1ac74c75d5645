use vstd::prelude::*;
use crate::credential_ledger::{held_by, lemma_held_by_push};
use crate::system::{
    credentials_of, issue_step, key_of, pending_at, request_step, settle_step, Ledgers,
    MINIMUM_FEE,
};
use crate::types::{AccountId, Balance, CredentialType, CredentialView, Error};

verus! {

/// Issuing against a key where nothing is pending fails with `NoRequest`
/// and changes nothing; in particular every issuance fails so before the
/// holder has asked.
pub proof fn lemma_issue_without_request(
    s: Ledgers,
    caller: AccountId,
    now: u64,
    user: AccountId,
    t: CredentialType,
)
    requires
        !s.pending.contains_key(key_of(user, caller, t)),
    ensures
        issue_step(s, caller, now, user, t) == (Err::<(), Error>(Error::NoRequest), s),
{
}

/// A request whose fee moved can be fulfilled once: the issuance succeeds,
/// and the same issuance right after fails with `NoRequest`.
pub proof fn lemma_request_fulfilled_once(
    s: Ledgers,
    holder: AccountId,
    issuer: AccountId,
    t: CredentialType,
    metadata: Seq<char>,
    value: Balance,
    now: u64,
    later: u64,
)
    requires
        value >= MINIMUM_FEE,
    ensures
        ({
            let key = key_of(holder, issuer, t);
            let (r1, s1) = request_step(s, holder, value, issuer, t, metadata);
            let (r2, s2) = settle_step(s1, key, pending_at(s, key), true);
            let (r3, s3) = issue_step(s2, issuer, now, holder, t);
            let (r4, s4) = issue_step(s3, issuer, later, holder, t);
            r1 is Ok && r2 is Ok && r3 is Ok && r4 == Err::<(), Error>(Error::NoRequest) && s4
                == s3
        }),
{
}

/// A request carrying less than the minimum fee fails with
/// `InsufficientFee` and leaves both ledgers as they were.
pub proof fn lemma_low_fee_rejected(
    s: Ledgers,
    caller: AccountId,
    value: Balance,
    issuer: AccountId,
    t: CredentialType,
    metadata: Seq<char>,
)
    requires
        value < MINIMUM_FEE,
    ensures
        request_step(s, caller, value, issuer, t, metadata) == (
            Err::<(), Error>(Error::InsufficientFee),
            s,
        ),
{
}

/// After a request and its issuance, the holder's credentials are those
/// from before with exactly one more at the end: issued to the holder, by
/// the issuer, of the asked type, with the metadata of the request. Every
/// other account's credentials are unchanged.
pub proof fn lemma_issuance_records_request(
    s: Ledgers,
    holder: AccountId,
    issuer: AccountId,
    t: CredentialType,
    metadata: Seq<char>,
    value: Balance,
    now: u64,
    other: AccountId,
)
    requires
        value >= MINIMUM_FEE,
    ensures
        ({
            let key = key_of(holder, issuer, t);
            let s1 = request_step(s, holder, value, issuer, t, metadata).1;
            let s2 = settle_step(s1, key, pending_at(s, key), true).1;
            let (r3, s3) = issue_step(s2, issuer, now, holder, t);
            &&& r3 is Ok
            &&& credentials_of(s3, holder) == credentials_of(s, holder).push(
                CredentialView {
                    issued_to: holder,
                    issued_by: issuer,
                    credential_type: t,
                    metadata,
                    timestamp: now,
                },
            )
            &&& other != holder ==> credentials_of(s3, other) == credentials_of(s, other)
        }),
{
    let c = CredentialView {
        issued_to: holder,
        issued_by: issuer,
        credential_type: t,
        metadata,
        timestamp: now,
    };
    lemma_held_by_push(s.issued, c, holder);
    lemma_held_by_push(s.issued, c, other);
}

/// Asking twice for the same thing before it is issued keeps only the
/// second metadata: the credential then issued carries it.
pub proof fn lemma_last_request_wins(
    s: Ledgers,
    holder: AccountId,
    issuer: AccountId,
    t: CredentialType,
    first: Seq<char>,
    second: Seq<char>,
    value1: Balance,
    value2: Balance,
    now: u64,
)
    requires
        value1 >= MINIMUM_FEE,
        value2 >= MINIMUM_FEE,
    ensures
        ({
            let key = key_of(holder, issuer, t);
            let s1 = request_step(s, holder, value1, issuer, t, first).1;
            let s2 = settle_step(s1, key, pending_at(s, key), true).1;
            let s3 = request_step(s2, holder, value2, issuer, t, second).1;
            let s4 = settle_step(s3, key, pending_at(s2, key), true).1;
            let (r5, s5) = issue_step(s4, issuer, now, holder, t);
            &&& s4.pending[key] == second
            &&& r5 is Ok
            &&& s5.issued.last().metadata == second
            &&& credentials_of(s5, holder) == credentials_of(s, holder).push(
                CredentialView {
                    issued_to: holder,
                    issued_by: issuer,
                    credential_type: t,
                    metadata: second,
                    timestamp: now,
                },
            )
        }),
{
    let c = CredentialView {
        issued_to: holder,
        issued_by: issuer,
        credential_type: t,
        metadata: second,
        timestamp: now,
    };
    lemma_held_by_push(s.issued, c, holder);
}

/// An account to which nothing was ever issued has no credentials.
pub proof fn lemma_no_credentials_without_issuance(s: Ledgers, user: AccountId)
    requires
        forall|i: int| 0 <= i < s.issued.len() ==> s.issued[i].issued_to != user,
    ensures
        credentials_of(s, user) == Seq::<CredentialView>::empty(),
    decreases s.issued.len(),
{
    if s.issued.len() > 0 {
        let rest = Ledgers { issued: s.issued.drop_last(), ..s };
        lemma_no_credentials_without_issuance(rest, user);
        assert(held_by(s.issued, user) == held_by(rest.issued, user));
    }
}

/// A request whose fee could not be moved leaves the ledgers exactly as
/// they were before it, the metadata it replaced included.
pub proof fn lemma_failed_transfer_rolls_back(
    s: Ledgers,
    caller: AccountId,
    value: Balance,
    issuer: AccountId,
    t: CredentialType,
    metadata: Seq<char>,
)
    ensures
        ({
            let key = key_of(caller, issuer, t);
            let (r1, s1) = request_step(s, caller, value, issuer, t, metadata);
            r1 is Ok ==> settle_step(s1, key, pending_at(s, key), false) == (
                Err::<(), Error>(Error::TransferFailed),
                s,
            )
        }),
{
    let key = key_of(caller, issuer, t);
    let s1 = request_step(s, caller, value, issuer, t, metadata).1;
    if value >= MINIMUM_FEE {
        if s.pending.contains_key(key) {
            assert(s1.pending.insert(key, s.pending[key]) =~= s.pending);
        } else {
            assert(s1.pending.remove(key) =~= s.pending);
        }
    }
}

} // verus!
