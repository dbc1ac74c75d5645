use vstd::prelude::*;

verus! {

/// Smallest unit of value that the host moves between accounts.
pub type Balance = u128;

/// An account of the host chain: 32 opaque bytes, compared for equality only.
#[derive(Clone, Copy, Debug)]
pub struct AccountId(pub [u8; 32]);

impl PartialEq for AccountId {
    fn eq(&self, other: &AccountId) -> (r: bool) {
        let mut i: usize = 0;
        while i < 32
            invariant
                0 <= i <= 32,
                forall|j: int| 0 <= j < i ==> self.0[j] == other.0[j],
            decreases 32 - i,
        {
            if self.0[i] != other.0[i] {
                return false;
            }
            i = i + 1;
        }
        assert(self.0 =~= other.0);
        true
    }
}

impl vstd::std_specs::cmp::PartialEqSpecImpl for AccountId {
    open spec fn obeys_eq_spec() -> bool {
        true
    }

    open spec fn eq_spec(&self, other: &AccountId) -> bool {
        *self == *other
    }
}

impl Eq for AccountId {
}

/// The kinds of credential that can be asked for.
#[derive(Clone, Copy, Debug, PartialEq, Eq, Structural)]
pub enum CredentialType {
    WorkExperience,
    Education,
    Certification,
    ProjectContribution,
    SkillEndorsement,
}

/// The failures of the public operations.
#[derive(Clone, Copy, Debug, PartialEq, Eq, Structural)]
pub enum Error {
    /// The caller or the other party did not pass identity verification.
    IdentityRequired,
    /// The issuer has no pending request from this holder for this type.
    NoRequest,
    /// The value attached to a request is below the minimum fee.
    InsufficientFee,
    /// The host could not move the fee to the issuer.
    TransferFailed,
}

/// Where a pending request is kept: who asks, whom, and for what.
#[derive(Clone, Copy, Debug)]
pub struct RequestKey {
    pub holder: AccountId,
    pub issuer: AccountId,
    pub credential_type: CredentialType,
}

impl RequestKey {
    /// Whether two keys name the same request.
    pub fn same_as(&self, other: &RequestKey) -> (r: bool)
        ensures
            r == (*self == *other),
    {
        self.holder == other.holder && self.issuer == other.issuer
            && self.credential_type == other.credential_type
    }
}

/// A credential as the ledger holds it once issued.
#[derive(Clone, Debug)]
pub struct Credential {
    pub issued_to: AccountId,
    pub issued_by: AccountId,
    pub credential_type: CredentialType,
    pub metadata: String,
    pub timestamp: u64,
}

/// What a credential states, with its metadata as characters.
pub ghost struct CredentialView {
    pub issued_to: AccountId,
    pub issued_by: AccountId,
    pub credential_type: CredentialType,
    pub metadata: Seq<char>,
    pub timestamp: u64,
}

impl View for Credential {
    type V = CredentialView;

    open spec fn view(&self) -> CredentialView {
        CredentialView {
            issued_to: self.issued_to,
            issued_by: self.issued_by,
            credential_type: self.credential_type,
            metadata: self.metadata@,
            timestamp: self.timestamp,
        }
    }
}

} // verus!
