use credentials::system::{CredentialSystem, MINIMUM_FEE};
use credentials::{AccountId, CredentialType, Error};

fn account(b: u8) -> AccountId {
    AccountId([b; 32])
}

/// Asks and has the fee moved; panics if the request is refused.
fn request_paid(
    s: &mut CredentialSystem,
    holder: AccountId,
    fee: u128,
    issuer: AccountId,
    t: CredentialType,
    metadata: &str,
) {
    let transfer = s
        .request_credential(holder, fee, issuer, t, metadata.to_string())
        .expect("request accepted");
    assert_eq!(s.settle_fee_transfer(transfer, true), Ok(()));
}

#[test]
fn issue_before_request_is_no_request() {
    let mut s = CredentialSystem::new();
    let (h, i) = (account(1), account(2));
    let all = [
        CredentialType::WorkExperience,
        CredentialType::Education,
        CredentialType::Certification,
        CredentialType::ProjectContribution,
        CredentialType::SkillEndorsement,
    ];
    for t in all {
        assert_eq!(s.issue_credential(i, 10, h, t), Err(Error::NoRequest));
        assert_eq!(s.issue_credential(h, 10, i, t), Err(Error::NoRequest));
    }
    assert!(s.get_credentials(h).is_empty());
}

#[test]
fn request_is_fulfilled_exactly_once() {
    let mut s = CredentialSystem::new();
    let (h, i) = (account(1), account(2));
    request_paid(&mut s, h, MINIMUM_FEE, i, CredentialType::Certification, "AWS");
    assert_eq!(s.issue_credential(i, 5, h, CredentialType::Certification), Ok(()));
    assert_eq!(s.issue_credential(i, 6, h, CredentialType::Certification), Err(Error::NoRequest));
    assert_eq!(s.get_credentials(h).len(), 1);
}

#[test]
fn issue_needs_the_matching_issuer_and_type() {
    let mut s = CredentialSystem::new();
    let (h, i, other) = (account(1), account(2), account(3));
    request_paid(&mut s, h, MINIMUM_FEE, i, CredentialType::Education, "BSc");
    assert_eq!(s.issue_credential(other, 5, h, CredentialType::Education), Err(Error::NoRequest));
    assert_eq!(s.issue_credential(i, 5, h, CredentialType::Certification), Err(Error::NoRequest));
    assert_eq!(s.issue_credential(i, 5, h, CredentialType::Education), Ok(()));
}

#[test]
fn fee_below_minimum_is_rejected() {
    let mut s = CredentialSystem::new();
    let (h, i) = (account(1), account(2));
    let r = s.request_credential(h, MINIMUM_FEE - 1, i, CredentialType::Education, "x".to_string());
    assert_eq!(r.err(), Some(Error::InsufficientFee));
    let r = s.request_credential(h, 0, i, CredentialType::Education, "x".to_string());
    assert_eq!(r.err(), Some(Error::InsufficientFee));
    assert_eq!(s.issue_credential(i, 1, h, CredentialType::Education), Err(Error::NoRequest));
}

#[test]
fn low_fee_leaves_pending_request_unchanged() {
    let mut s = CredentialSystem::new();
    let (h, i) = (account(1), account(2));
    request_paid(&mut s, h, MINIMUM_FEE, i, CredentialType::Education, "first");
    let r = s.request_credential(h, 1, i, CredentialType::Education, "second".to_string());
    assert_eq!(r.err(), Some(Error::InsufficientFee));
    assert_eq!(s.issue_credential(i, 1, h, CredentialType::Education), Ok(()));
    assert_eq!(s.get_credentials(h)[0].metadata, "first");
}

#[test]
fn issuance_adds_exactly_one_credential() {
    let mut s = CredentialSystem::new();
    let (h, i, other) = (account(1), account(2), account(3));
    request_paid(&mut s, h, MINIMUM_FEE, i, CredentialType::WorkExperience, "Acme 2019-2023");
    request_paid(&mut s, other, MINIMUM_FEE, i, CredentialType::WorkExperience, "Globex");
    assert_eq!(s.issue_credential(i, 42, h, CredentialType::WorkExperience), Ok(()));
    let creds = s.get_credentials(h);
    assert_eq!(creds.len(), 1);
    let c = &creds[0];
    assert_eq!(c.issued_to, h);
    assert_eq!(c.issued_by, i);
    assert_eq!(c.credential_type, CredentialType::WorkExperience);
    assert_eq!(c.metadata, "Acme 2019-2023");
    assert_eq!(c.timestamp, 42);
    assert!(s.get_credentials(other).is_empty());
    assert!(s.get_credentials(i).is_empty());
}

#[test]
fn rerequest_overwrites_metadata() {
    let mut s = CredentialSystem::new();
    let (h, i) = (account(1), account(2));
    request_paid(&mut s, h, MINIMUM_FEE, i, CredentialType::SkillEndorsement, "Rust");
    request_paid(&mut s, h, MINIMUM_FEE + 5, i, CredentialType::SkillEndorsement, "Rust, Verus");
    assert_eq!(s.issue_credential(i, 3, h, CredentialType::SkillEndorsement), Ok(()));
    let creds = s.get_credentials(h);
    assert_eq!(creds.len(), 1);
    assert_eq!(creds[0].metadata, "Rust, Verus");
    assert_eq!(s.issue_credential(i, 4, h, CredentialType::SkillEndorsement), Err(Error::NoRequest));
}

#[test]
fn holder_without_credentials_gets_empty_list() {
    let s = CredentialSystem::new();
    assert!(s.get_credentials(account(9)).is_empty());
}

#[test]
fn education_scenario() {
    let mut s = CredentialSystem::new();
    let (h, i) = (account(1), account(2));
    let request_time: u64 = 1_000;
    let transfer = s
        .request_credential(h, MINIMUM_FEE, i, CredentialType::Education, "BSc CS".to_string())
        .unwrap();
    assert_eq!(s.settle_fee_transfer(transfer, true), Ok(()));
    assert_eq!(s.issue_credential(i, request_time + 60, h, CredentialType::Education), Ok(()));
    let creds = s.get_credentials(h);
    assert_eq!(creds.len(), 1);
    assert_eq!(creds[0].issued_to, h);
    assert_eq!(creds[0].issued_by, i);
    assert_eq!(creds[0].credential_type, CredentialType::Education);
    assert_eq!(creds[0].metadata, "BSc CS");
    assert!(creds[0].timestamp >= request_time);
}

#[test]
fn fee_transfer_moves_whole_value_to_issuer() {
    let mut s = CredentialSystem::new();
    let (h, i) = (account(1), account(2));
    let t = s
        .request_credential(h, MINIMUM_FEE + 77, i, CredentialType::Education, "a".to_string())
        .unwrap();
    assert_eq!(t.to, i);
    assert_eq!(t.amount, MINIMUM_FEE + 77);
    assert_eq!(t.key.holder, h);
    assert_eq!(t.key.issuer, i);
    assert_eq!(t.key.credential_type, CredentialType::Education);
    assert_eq!(t.displaced, None);
    assert_eq!(s.settle_fee_transfer(t, true), Ok(()));
    let t = s
        .request_credential(h, MINIMUM_FEE, i, CredentialType::Education, "b".to_string())
        .unwrap();
    assert_eq!(t.displaced, Some("a".to_string()));
}

#[test]
fn failed_transfer_undoes_new_request() {
    let mut s = CredentialSystem::new();
    let (h, i) = (account(1), account(2));
    let t = s
        .request_credential(h, MINIMUM_FEE, i, CredentialType::Education, "a".to_string())
        .unwrap();
    assert_eq!(s.settle_fee_transfer(t, false), Err(Error::TransferFailed));
    assert_eq!(s.issue_credential(i, 1, h, CredentialType::Education), Err(Error::NoRequest));
}

#[test]
fn failed_transfer_restores_replaced_request() {
    let mut s = CredentialSystem::new();
    let (h, i) = (account(1), account(2));
    request_paid(&mut s, h, MINIMUM_FEE, i, CredentialType::Education, "old");
    let t = s
        .request_credential(h, MINIMUM_FEE, i, CredentialType::Education, "new".to_string())
        .unwrap();
    assert_eq!(s.settle_fee_transfer(t, false), Err(Error::TransferFailed));
    assert_eq!(s.issue_credential(i, 1, h, CredentialType::Education), Ok(()));
    assert_eq!(s.get_credentials(h)[0].metadata, "old");
}

#[test]
fn credentials_kept_in_issuance_order_with_repeats() {
    let mut s = CredentialSystem::new();
    let (h, i, j) = (account(1), account(2), account(3));
    request_paid(&mut s, h, MINIMUM_FEE, i, CredentialType::Education, "BSc");
    request_paid(&mut s, h, MINIMUM_FEE, j, CredentialType::ProjectContribution, "compiler");
    assert_eq!(s.issue_credential(j, 10, h, CredentialType::ProjectContribution), Ok(()));
    assert_eq!(s.issue_credential(i, 20, h, CredentialType::Education), Ok(()));
    request_paid(&mut s, h, MINIMUM_FEE, i, CredentialType::Education, "MSc");
    assert_eq!(s.issue_credential(i, 30, h, CredentialType::Education), Ok(()));
    let creds = s.get_credentials(h);
    let got: Vec<(&str, u64)> = creds.iter().map(|c| (c.metadata.as_str(), c.timestamp)).collect();
    assert_eq!(got, vec![("compiler", 10), ("BSc", 20), ("MSc", 30)]);
}

#[test]
fn account_equality_compares_all_bytes() {
    let mut b = [7u8; 32];
    assert_eq!(AccountId(b), AccountId([7u8; 32]));
    b[31] = 8;
    assert_ne!(AccountId(b), AccountId([7u8; 32]));
}
