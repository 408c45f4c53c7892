use nft_series::contract::Contract;
use nft_series::storage::settle_storage;
use nft_series::token_id::make_token_id;
use nft_series::types::{ContractError, KeypomArgs, TokenMetadata};

fn metadata(copies: Option<u64>) -> TokenMetadata {
    TokenMetadata {
        title: Some("Ticket".to_string()),
        description: None,
        media: None,
        media_hash: None,
        copies,
        issued_at: None,
        expires_at: None,
        starts_at: None,
        updated_at: None,
        extra: None,
        reference: None,
        reference_hash: None,
    }
}

fn args(drop: Option<&str>, account: Option<&str>) -> KeypomArgs {
    KeypomArgs {
        account_id_field: account.map(|s| s.to_string()),
        drop_id_field: drop.map(|s| s.to_string()),
        key_id_field: None,
    }
}

fn good_args() -> KeypomArgs {
    args(Some("mint_id"), Some("receiver_id"))
}

fn ledger() -> Contract {
    Contract::new(
        vec!["alice".to_string(), "carol".to_string()],
        vec!["minter".to_string()],
    )
}

fn minter() -> String {
    "minter".to_string()
}

fn issued(c: &Contract, series_id: u64) -> Vec<String> {
    c.series_by_id.get(&series_id).unwrap().tokens.clone()
}

#[test]
fn create_series_defaults_mint_id_to_series_id() {
    let mut c = ledger();
    assert_eq!(c.create_series("alice".to_string(), None, metadata(None), None), Ok(1));
    assert_eq!(c.create_series("alice".to_string(), None, metadata(None), None), Ok(2));
    assert_eq!(c.series_id_by_mint_id.get(&1), Some(&1));
    assert_eq!(c.series_id_by_mint_id.get(&2), Some(&2));
    let s = c.series_by_id.get(&2).unwrap();
    assert_eq!(s.mint_id, 2);
    assert_eq!(s.owner_id, "alice");
    assert!(s.tokens.is_empty());
}

#[test]
fn create_series_maps_explicit_mint_id_only() {
    let mut c = ledger();
    assert_eq!(c.create_series("carol".to_string(), Some(42), metadata(Some(5)), None), Ok(1));
    assert_eq!(c.series_id_by_mint_id.get(&42), Some(&1));
    assert_eq!(c.series_id_by_mint_id.len(), 1);
    assert_eq!(c.series_by_id.get(&1).unwrap().mint_id, 42);
    assert_eq!(c.series_by_id.get(&1).unwrap().metadata.copies, Some(5));
}

#[test]
fn create_series_rejects_unapproved_creator() {
    let mut c = ledger();
    assert_eq!(
        c.create_series("mallory".to_string(), None, metadata(None), None),
        Err(ContractError::Unauthorized)
    );
    assert!(c.series_by_id.is_empty());
    assert!(c.series_id_by_mint_id.is_empty());
}

#[test]
fn duplicate_explicit_mint_id_fails_second_series() {
    let mut c = ledger();
    assert_eq!(c.create_series("alice".to_string(), Some(7), metadata(None), None), Ok(1));
    assert_eq!(
        c.create_series("carol".to_string(), Some(7), metadata(Some(3)), None),
        Err(ContractError::DuplicateMintId)
    );
    assert_eq!(c.series_by_id.len(), 1);
    assert_eq!(c.series_id_by_mint_id.get(&7), Some(&1));
    assert_eq!(c.series_by_id.get(&1).unwrap().owner_id, "alice");
    assert_eq!(c.series_by_id.get(&1).unwrap().metadata.copies, None);
}

#[test]
fn default_mint_id_collides_with_explicit_one() {
    let mut c = ledger();
    assert_eq!(c.create_series("alice".to_string(), Some(2), metadata(None), None), Ok(1));
    assert_eq!(
        c.create_series("alice".to_string(), None, metadata(None), None),
        Err(ContractError::DuplicateMintId)
    );
    assert_eq!(c.series_by_id.len(), 1);
}

#[test]
fn mints_up_to_ceiling_then_exhausted() {
    let mut c = ledger();
    assert_eq!(c.create_series("alice".to_string(), Some(9), metadata(Some(3)), None), Ok(1));
    for _ in 0..3 {
        assert!(c.nft_mint(&minter(), 9, "bob".to_string(), &good_args()).is_ok());
    }
    assert_eq!(
        c.nft_mint(&minter(), 9, "bob".to_string(), &good_args()).err(),
        Some(ContractError::SupplyExhausted)
    );
    assert_eq!(issued(&c, 1), vec!["1:1", "1:2", "1:3"]);
    assert_eq!(c.tokens_by_id.len(), 3);
}

#[test]
fn mint_without_ceiling_keeps_numbering() {
    let mut c = ledger();
    c.create_series("alice".to_string(), None, metadata(None), None).unwrap();
    c.create_series("alice".to_string(), None, metadata(None), None).unwrap();
    for _ in 0..11 {
        c.nft_mint(&minter(), 2, "bob".to_string(), &good_args()).unwrap();
    }
    let ids = issued(&c, 2);
    assert_eq!(ids.len(), 11);
    assert_eq!(ids[9], "2:10");
    assert_eq!(ids[10], "2:11");
    assert!(issued(&c, 1).is_empty());
}

#[test]
fn mint_returns_event_and_stores_token() {
    let mut c = ledger();
    c.create_series("alice".to_string(), Some(100), metadata(None), None).unwrap();
    let ev = c.nft_mint(&minter(), 100, "bob".to_string(), &good_args()).unwrap();
    assert_eq!(ev.standard, "nep171");
    assert_eq!(ev.version, "nft-1.0.0");
    assert_eq!(ev.event.len(), 1);
    assert_eq!(ev.event[0].owner_id, "bob");
    assert_eq!(ev.event[0].token_ids, vec!["1:1".to_string()]);
    assert_eq!(ev.event[0].memo, None);
    let (id, token) = &c.tokens_by_id[0];
    assert_eq!(id, "1:1");
    assert_eq!(token.series_id, 1);
    assert_eq!(token.owner_id, "bob");
    assert!(token.approved_account_ids.is_empty());
    assert_eq!(token.next_approval_id, 0);
    assert!(c.token_exists(&"1:1".to_string()));
    assert!(!c.token_exists(&"1:2".to_string()));
}

#[test]
fn mint_with_wrong_drop_field_is_malformed_and_changes_nothing() {
    let mut c = ledger();
    c.create_series("alice".to_string(), None, metadata(Some(2)), None).unwrap();
    assert_eq!(
        c.nft_mint(&minter(), 1, "bob".to_string(), &args(Some("wrong_name"), Some("receiver_id"))).err(),
        Some(ContractError::MalformedIntegrityPayload)
    );
    assert!(issued(&c, 1).is_empty());
    assert!(c.tokens_by_id.is_empty());
}

#[test]
fn mint_with_missing_or_wrong_account_field_is_malformed() {
    let mut c = ledger();
    c.create_series("alice".to_string(), None, metadata(None), None).unwrap();
    assert_eq!(
        c.nft_mint(&minter(), 1, "bob".to_string(), &args(None, Some("receiver_id"))).err(),
        Some(ContractError::MalformedIntegrityPayload)
    );
    assert_eq!(
        c.nft_mint(&minter(), 1, "bob".to_string(), &args(Some("mint_id"), None)).err(),
        Some(ContractError::MalformedIntegrityPayload)
    );
    assert_eq!(
        c.nft_mint(&minter(), 1, "bob".to_string(), &args(Some("mint_id"), Some("owner_id"))).err(),
        Some(ContractError::MalformedIntegrityPayload)
    );
    assert!(issued(&c, 1).is_empty());
}

#[test]
fn mint_checks_payload_before_minter() {
    let mut c = ledger();
    c.create_series("alice".to_string(), None, metadata(None), None).unwrap();
    assert_eq!(
        c.nft_mint(&"mallory".to_string(), 1, "bob".to_string(), &args(Some("x"), Some("receiver_id"))).err(),
        Some(ContractError::MalformedIntegrityPayload)
    );
}

#[test]
fn mint_rejects_unapproved_minter() {
    let mut c = ledger();
    c.create_series("alice".to_string(), None, metadata(None), None).unwrap();
    assert_eq!(
        c.nft_mint(&"alice".to_string(), 1, "bob".to_string(), &good_args()).err(),
        Some(ContractError::Unauthorized)
    );
    assert!(issued(&c, 1).is_empty());
}

#[test]
fn mint_rejects_unknown_mint_id() {
    let mut c = ledger();
    c.create_series("alice".to_string(), Some(5), metadata(None), None).unwrap();
    assert_eq!(
        c.nft_mint(&minter(), 1, "bob".to_string(), &good_args()).err(),
        Some(ContractError::UnknownMintId)
    );
}

#[test]
fn mint_with_zero_copies_is_exhausted() {
    let mut c = ledger();
    c.create_series("alice".to_string(), None, metadata(Some(0)), None).unwrap();
    assert_eq!(
        c.nft_mint(&minter(), 1, "bob".to_string(), &good_args()).err(),
        Some(ContractError::SupplyExhausted)
    );
}

#[test]
fn update_mint_id_by_owner_repoints() {
    let mut c = ledger();
    c.create_series("alice".to_string(), Some(10), metadata(None), None).unwrap();
    assert_eq!(c.update_mint_id(&"alice".to_string(), 10, 20), Ok(()));
    assert_eq!(c.series_id_by_mint_id.get(&10), None);
    assert_eq!(c.series_id_by_mint_id.get(&20), Some(&1));
    assert_eq!(c.series_by_id.get(&1).unwrap().mint_id, 20);
    c.nft_mint(&minter(), 20, "bob".to_string(), &good_args()).unwrap();
    assert_eq!(issued(&c, 1), vec!["1:1"]);
    assert_eq!(
        c.nft_mint(&minter(), 10, "bob".to_string(), &good_args()).err(),
        Some(ContractError::UnknownMintId)
    );
}

#[test]
fn update_mint_id_by_non_owner_is_unauthorized() {
    let mut c = ledger();
    c.create_series("alice".to_string(), Some(10), metadata(None), None).unwrap();
    assert_eq!(c.update_mint_id(&"carol".to_string(), 10, 20), Err(ContractError::Unauthorized));
    assert_eq!(c.series_id_by_mint_id.get(&10), Some(&1));
    assert_eq!(c.series_id_by_mint_id.get(&20), None);
    assert_eq!(c.series_by_id.get(&1).unwrap().mint_id, 10);
}

#[test]
fn update_mint_id_rejects_unknown_and_taken_ids() {
    let mut c = ledger();
    c.create_series("alice".to_string(), Some(10), metadata(None), None).unwrap();
    c.create_series("carol".to_string(), Some(11), metadata(None), None).unwrap();
    assert_eq!(c.update_mint_id(&"alice".to_string(), 12, 13), Err(ContractError::UnknownMintId));
    assert_eq!(c.update_mint_id(&"alice".to_string(), 10, 11), Err(ContractError::DuplicateMintId));
    assert_eq!(c.series_id_by_mint_id.get(&10), Some(&1));
    assert_eq!(c.series_id_by_mint_id.get(&11), Some(&2));
    assert_eq!(c.series_by_id.get(&1).unwrap().mint_id, 10);
}

#[test]
fn update_mint_id_to_itself_keeps_mapping() {
    let mut c = ledger();
    c.create_series("alice".to_string(), Some(10), metadata(None), None).unwrap();
    assert_eq!(c.update_mint_id(&"alice".to_string(), 10, 10), Ok(()));
    assert_eq!(c.series_id_by_mint_id.get(&10), Some(&1));
    assert_eq!(c.series_by_id.get(&1).unwrap().mint_id, 10);
}

#[test]
fn end_to_end_single_copy() {
    let mut c = ledger();
    assert_eq!(c.create_series("alice".to_string(), None, metadata(Some(1)), None), Ok(1));
    let ev = c.nft_mint(&minter(), 1, "bob".to_string(), &good_args()).unwrap();
    assert_eq!(ev.event[0].token_ids, vec!["1:1".to_string()]);
    assert_eq!(
        c.nft_mint(&minter(), 1, "bob".to_string(), &good_args()).err(),
        Some(ContractError::SupplyExhausted)
    );
    assert_eq!(c.update_mint_id(&"bob".to_string(), 1, 2), Err(ContractError::Unauthorized));
    assert_eq!(c.series_id_by_mint_id.get(&1), Some(&1));
}

#[test]
fn token_id_is_decimal_pair() {
    assert_eq!(make_token_id(12, 345), "12:345");
    assert_eq!(make_token_id(0, 0), "0:0");
    assert_eq!(make_token_id(u64::MAX, 10), "18446744073709551615:10");
}

#[test]
fn settle_storage_refunds_excess() {
    assert_eq!(settle_storage(100, 150, 10, 600), Ok(100));
    assert_eq!(settle_storage(100, 150, 10, 500), Ok(0));
    assert_eq!(settle_storage(7, 7, 10, 3), Ok(3));
}

#[test]
fn settle_storage_rejects_short_deposit() {
    assert_eq!(settle_storage(100, 150, 10, 499), Err(ContractError::InsufficientDeposit));
    assert_eq!(
        settle_storage(0, u64::MAX, u128::MAX, u128::MAX),
        Err(ContractError::InsufficientDeposit)
    );
}
