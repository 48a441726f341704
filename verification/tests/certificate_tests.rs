use certificate::{Address, CertificateContract, Error, Table};

fn addr(s: &str) -> Address {
    Address { strkey: s.to_string() }
}

fn learner() -> Address {
    addr("GLEARNERAAAAAAAAAAAAAAAAAAAAAAAAAAAAAAAAAAAAAAAAAAAAAAAA")
}

fn other_learner() -> Address {
    addr("GOTHERLEARNERAAAAAAAAAAAAAAAAAAAAAAAAAAAAAAAAAAAAAAAAAAA")
}

fn owner() -> Address {
    addr("CMILESTONEAAAAAAAAAAAAAAAAAAAAAAAAAAAAAAAAAAAAAAAAAAAAAA")
}

fn stranger() -> Address {
    addr("GSTRANGERAAAAAAAAAAAAAAAAAAAAAAAAAAAAAAAAAAAAAAAAAAAAAAA")
}

fn mint(c: &mut CertificateContract, quest_id: u32, recipient: Address, token_id: u32) -> Result<u32, Error> {
    c.mint_certificate(
        quest_id,
        b"Rust Basics".to_vec(),
        b"Programming".to_vec(),
        recipient,
        owner(),
        token_id,
        1_700_000_000,
    )
}

#[test]
fn fresh_contract_has_nothing_recorded() {
    let c = CertificateContract::new();
    assert!(!c.has_quest_certificate(1, learner()));
    assert_eq!(c.get_quest_certificate(1, learner()), Err(Error::NotFound));
    assert!(c.get_certificate_metadata(0).is_err());
    assert_eq!(c.get_user_certificates(learner()), Vec::<u32>::new());
    assert_eq!(c.get_metadata_base(), Err(Error::MetadataBaseNotSet));
    assert!(!c.is_revoked(0));
    assert!(c.get_user_certificate_details(learner()).is_empty());
}

#[test]
fn mint_records_metadata_mapping_and_list() {
    let mut c = CertificateContract::new();
    assert_eq!(mint(&mut c, 7, learner(), 0), Ok(0));
    assert!(c.has_quest_certificate(7, learner()));
    assert_eq!(c.get_quest_certificate(7, learner()), Ok(0));
    assert_eq!(c.get_user_certificates(learner()), vec![0]);
    let m = c.get_certificate_metadata(0).unwrap();
    assert_eq!(m.quest_id, 7);
    assert_eq!(m.quest_name, b"Rust Basics".to_vec());
    assert_eq!(m.quest_category, b"Programming".to_vec());
    assert_eq!(m.completion_date, 1_700_000_000);
    assert_eq!(m.issuer, owner());
    assert_eq!(m.recipient, learner());
    assert!(!c.is_revoked(0));
}

#[test]
fn second_mint_for_same_quest_and_recipient_is_refused() {
    let mut c = CertificateContract::new();
    assert_eq!(mint(&mut c, 7, learner(), 0), Ok(0));
    assert_eq!(c.check_mintable(7, learner()), Err(Error::AlreadyIssued));
    assert_eq!(mint(&mut c, 7, learner(), 1), Err(Error::AlreadyIssued));
    assert_eq!(c.get_user_certificates(learner()), vec![0]);
    assert!(c.get_certificate_metadata(1).is_err());
    assert_eq!(c.get_quest_certificate(7, learner()), Ok(0));
}

#[test]
fn certificates_accumulate_in_mint_order() {
    let mut c = CertificateContract::new();
    assert_eq!(c.check_mintable(1, learner()), Ok(()));
    assert_eq!(mint(&mut c, 1, learner(), 0), Ok(0));
    assert_eq!(mint(&mut c, 2, learner(), 1), Ok(1));
    assert_eq!(mint(&mut c, 1, other_learner(), 2), Ok(2));
    assert_eq!(mint(&mut c, 3, learner(), 3), Ok(3));
    assert_eq!(c.get_user_certificates(learner()), vec![0, 1, 3]);
    assert_eq!(c.get_user_certificates(other_learner()), vec![2]);
    assert_eq!(c.get_quest_certificate(1, other_learner()), Ok(2));
    assert_eq!(c.get_quest_certificate(2, other_learner()), Err(Error::NotFound));
}

#[test]
fn quest_mint_uses_owner_as_issuer() {
    let mut c = CertificateContract::new();
    let r = c.mint_quest_certificate(
        false,
        Some(owner()),
        4,
        b"Soroban 101".to_vec(),
        b"Blockchain".to_vec(),
        learner(),
        0,
        42,
    );
    assert_eq!(r, Ok(0));
    let m = c.get_certificate_metadata(0).unwrap();
    assert_eq!(m.issuer, owner());
    assert_eq!(m.quest_name, b"Soroban 101".to_vec());
    assert_eq!(m.completion_date, 42);
}

#[test]
fn quest_mint_refused_while_paused() {
    let mut c = CertificateContract::new();
    let r = c.mint_quest_certificate(
        true,
        Some(owner()),
        4,
        b"Q".to_vec(),
        b"C".to_vec(),
        learner(),
        0,
        42,
    );
    assert_eq!(r, Err(Error::Paused));
    assert!(!c.has_quest_certificate(4, learner()));
    assert_eq!(CertificateContract::quest_certificate_issuer(true, None), Err(Error::Paused));
}

#[test]
fn quest_mint_refused_without_owner() {
    let mut c = CertificateContract::new();
    let r = c.mint_quest_certificate(false, None, 4, b"Q".to_vec(), b"C".to_vec(), learner(), 0, 42);
    assert_eq!(r, Err(Error::NotOwner));
    assert_eq!(CertificateContract::quest_certificate_issuer(false, Some(owner())), Ok(owner()));
}

#[test]
fn quest_mint_refused_when_already_issued() {
    let mut c = CertificateContract::new();
    assert_eq!(mint(&mut c, 4, learner(), 0), Ok(0));
    let r = c.mint_quest_certificate(false, Some(owner()), 4, b"Q".to_vec(), b"C".to_vec(), learner(), 1, 42);
    assert_eq!(r, Err(Error::AlreadyIssued));
}

#[test]
fn certificate_details_pair_metadata_with_holder() {
    let mut c = CertificateContract::new();
    assert!(matches!(c.get_certificate_details(0, learner()), Err(Error::NotFound)));
    assert_eq!(mint(&mut c, 9, learner(), 0), Ok(0));
    let (m, holder) = c.get_certificate_details(0, other_learner()).unwrap();
    assert_eq!(m.quest_id, 9);
    assert_eq!(holder, other_learner());
}

#[test]
fn user_certificate_details_follow_list_order() {
    let mut c = CertificateContract::new();
    assert_eq!(mint(&mut c, 5, learner(), 10), Ok(10));
    assert_eq!(mint(&mut c, 6, learner(), 11), Ok(11));
    let d = c.get_user_certificate_details(learner());
    assert_eq!(d.len(), 2);
    assert_eq!(d[0].0, 10);
    assert_eq!(d[0].1.quest_id, 5);
    assert_eq!(d[1].0, 11);
    assert_eq!(d[1].1.quest_id, 6);
    assert!(c.get_user_certificate_details(other_learner()).is_empty());
}

#[test]
fn revoke_removes_certificate_and_sets_tombstone() {
    let mut c = CertificateContract::new();
    assert_eq!(mint(&mut c, 1, learner(), 0), Ok(0));
    assert_eq!(mint(&mut c, 2, learner(), 1), Ok(1));
    assert_eq!(c.revoke_certificate(Some(owner()), owner(), 0), Ok(()));
    assert!(c.is_revoked(0));
    assert!(!c.is_revoked(1));
    assert_eq!(c.get_certificate_metadata(0).err(), Some(Error::NotFound));
    assert!(!c.has_quest_certificate(1, learner()));
    assert!(c.has_quest_certificate(2, learner()));
    assert_eq!(c.get_user_certificates(learner()), vec![1]);
    let d = c.get_user_certificate_details(learner());
    assert_eq!(d.len(), 1);
    assert_eq!(d[0].0, 1);
}

#[test]
fn revoke_twice_is_refused() {
    let mut c = CertificateContract::new();
    assert_eq!(mint(&mut c, 1, learner(), 0), Ok(0));
    assert_eq!(c.revoke_certificate(Some(owner()), owner(), 0), Ok(()));
    assert_eq!(c.revoke_certificate(Some(owner()), owner(), 0), Err(Error::AlreadyRevoked));
}

#[test]
fn revoke_by_non_owner_is_refused() {
    let mut c = CertificateContract::new();
    assert_eq!(mint(&mut c, 1, learner(), 0), Ok(0));
    assert_eq!(c.revoke_certificate(Some(owner()), stranger(), 0), Err(Error::NotOwner));
    assert_eq!(c.revoke_certificate(None, owner(), 0), Err(Error::NotOwner));
    assert!(c.has_quest_certificate(1, learner()));
    assert!(!c.is_revoked(0));
    assert_eq!(c.get_user_certificates(learner()), vec![0]);
}

#[test]
fn revoke_unknown_certificate_is_not_found() {
    let mut c = CertificateContract::new();
    assert_eq!(c.revoke_certificate(Some(owner()), owner(), 99), Err(Error::NotFound));
    assert!(!c.is_revoked(99));
}

#[test]
fn owner_check_comes_before_revocation_state() {
    let mut c = CertificateContract::new();
    assert_eq!(mint(&mut c, 1, learner(), 0), Ok(0));
    assert_eq!(c.revoke_certificate(Some(owner()), owner(), 0), Ok(()));
    assert_eq!(c.revoke_certificate(Some(owner()), stranger(), 0), Err(Error::NotOwner));
    assert_eq!(c.revoke_certificate(Some(owner()), stranger(), 99), Err(Error::NotOwner));
}

#[test]
fn recipient_can_be_certified_again_after_revocation() {
    let mut c = CertificateContract::new();
    assert_eq!(mint(&mut c, 1, learner(), 0), Ok(0));
    assert_eq!(c.revoke_certificate(Some(owner()), owner(), 0), Ok(()));
    assert_eq!(c.check_mintable(1, learner()), Ok(()));
    assert_eq!(mint(&mut c, 1, learner(), 1), Ok(1));
    assert_eq!(c.get_quest_certificate(1, learner()), Ok(1));
    assert_eq!(c.get_user_certificates(learner()), vec![1]);
    assert!(c.is_revoked(0));
}

#[test]
fn metadata_base_reads_back_last_value() {
    let mut c = CertificateContract::new();
    assert_eq!(c.set_metadata_base(b"https://old.example/".to_vec()), Ok(()));
    assert_eq!(c.get_metadata_base(), Ok(b"https://old.example/".to_vec()));
    assert_eq!(c.set_metadata_base(b"ipfs://new/".to_vec()), Ok(()));
    assert_eq!(c.get_metadata_base(), Ok(b"ipfs://new/".to_vec()));
}

#[test]
fn error_codes_match_contract_abi() {
    assert_eq!(Error::NotOwner.code(), 10);
    assert_eq!(Error::Unauthorized.code(), 2);
    assert_eq!(Error::AlreadyIssued.code(), 20);
    assert_eq!(Error::NotFound.code(), 1);
    assert_eq!(Error::InvalidQuest.code(), 5);
    assert_eq!(Error::AlreadyRevoked.code(), 6);
    assert_eq!(Error::MetadataBaseNotSet.code(), 7);
    assert_eq!(Error::InvalidInput.code(), 3);
    assert_eq!(Error::Paused.code(), 400);
}

#[test]
fn table_insert_replace_remove() {
    let mut t: Table<u32, u32> = Table::new();
    assert_eq!(t.get(&1), None);
    t.insert(1, 10);
    t.insert(2, 20);
    t.insert(1, 11);
    assert_eq!(t.get(&1), Some(&11));
    assert_eq!(t.get(&2), Some(&20));
    assert!(t.contains_key(&2));
    t.remove(&1);
    assert_eq!(t.get(&1), None);
    assert_eq!(t.get(&2), Some(&20));
    t.remove(&3);
    assert_eq!(t.entries.len(), 1);
}

#[test]
fn addresses_compare_by_strkey() {
    assert_eq!(learner(), learner().clone());
    assert_ne!(learner(), other_learner());
}

#[test]
fn metadata_compares_by_every_field() {
    let mut c = CertificateContract::new();
    assert_eq!(mint(&mut c, 1, learner(), 0), Ok(0));
    let a = c.get_certificate_metadata(0).unwrap();
    let b = a.clone();
    assert_eq!(a, b);
    let mut d = a.clone();
    d.completion_date = 1;
    assert_ne!(a, d);
    let mut e = a.clone();
    e.recipient = other_learner();
    assert_ne!(a, e);
}

#[test]
fn revoking_a_fresh_mint_restores_earlier_reads() {
    let mut c = CertificateContract::new();
    assert_eq!(mint(&mut c, 1, learner(), 0), Ok(0));
    assert_eq!(mint(&mut c, 2, learner(), 1), Ok(1));
    assert_eq!(c.revoke_certificate(Some(owner()), owner(), 1), Ok(()));
    assert_eq!(c.get_user_certificates(learner()), vec![0]);
    assert_eq!(c.get_quest_certificate(1, learner()), Ok(0));
    assert_eq!(c.get_quest_certificate(2, learner()), Err(Error::NotFound));
    assert!(c.get_certificate_metadata(1).is_err());
    assert!(c.is_revoked(1));
}

#[test]
fn last_metadata_base_written_wins_across_other_calls() {
    let mut c = CertificateContract::new();
    assert_eq!(c.set_metadata_base(b"https://a/".to_vec()), Ok(()));
    assert_eq!(mint(&mut c, 1, learner(), 0), Ok(0));
    assert_eq!(c.set_metadata_base(b"https://b/".to_vec()), Ok(()));
    assert_eq!(c.revoke_certificate(Some(owner()), owner(), 0), Ok(()));
    assert_eq!(mint(&mut c, 1, learner(), 1), Ok(1));
    assert_eq!(c.get_metadata_base(), Ok(b"https://b/".to_vec()));
}

#[test]
fn metadata_reads_back_after_other_calls() {
    let mut c = CertificateContract::new();
    assert_eq!(mint(&mut c, 1, learner(), 0), Ok(0));
    assert_eq!(mint(&mut c, 2, other_learner(), 1), Ok(1));
    assert_eq!(c.revoke_certificate(Some(owner()), owner(), 1), Ok(()));
    assert_eq!(mint(&mut c, 3, learner(), 2), Ok(2));
    let m = c.get_certificate_metadata(0).unwrap();
    assert_eq!(m.quest_id, 1);
    assert_eq!(m.recipient, learner());
    assert_eq!(c.get_user_certificates(learner()), vec![0, 2]);
}

#[test]
fn names_are_kept_as_raw_bytes() {
    let mut c = CertificateContract::new();
    let name = vec![0xff, 0x00, 0xfe];
    let r = c.mint_certificate(1, name.clone(), vec![], learner(), owner(), 0, 5);
    assert_eq!(r, Ok(0));
    let m = c.get_certificate_metadata(0).unwrap();
    assert_eq!(m.quest_name, name);
    assert!(m.quest_category.is_empty());
    assert_eq!(c.set_metadata_base(vec![0xc3, 0x28]), Ok(()));
    assert_eq!(c.get_metadata_base(), Ok(vec![0xc3, 0x28]));
}
