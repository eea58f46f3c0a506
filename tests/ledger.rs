use nft_ledger::{
    decode_bool_payload, rollback_requested, Contract, NonFungibleTokenCore, PromiseOutcome,
    TokenMetadata, TransferError,
};

fn meta(kind: &str) -> TokenMetadata {
    TokenMetadata {
        title: Some(format!("{} token", kind)),
        description: None,
        media: None,
        token_id: None,
        token_kind: kind.to_string(),
        num_of_likes: None,
    }
}

fn acct(name: &str) -> String {
    name.to_string()
}

fn owner_of(c: &Contract, id: u128) -> Option<String> {
    c.nft_token(id).map(|t| t.owner_id)
}

fn sorted(mut v: Vec<u128>) -> Vec<u128> {
    v.sort();
    v
}

fn ledger_with_alice_token() -> Contract {
    let mut c = Contract::new();
    c.nft_mint(meta("art"), acct("alice"));
    c
}

#[test]
fn mint_assigns_counter_id_and_zero_likes() {
    let mut c = Contract::new();
    assert_eq!(c.show_token_id_counter(), 0);
    c.nft_mint(meta("art"), acct("alice"));
    assert_eq!(c.show_token_id_counter(), 1);
    let tok = c.nft_token(0).unwrap();
    assert_eq!(tok.owner_id, "alice");
    assert_eq!(tok.metadata.token_id, Some(0));
    assert_eq!(tok.metadata.num_of_likes, Some(0));
    assert_eq!(tok.metadata.token_kind, "art");
    assert_eq!(tok.metadata.title, Some("art token".to_string()));
    assert!(c.nft_token(1).is_none());
    assert_eq!(c.nft_tokens_for_owner(&acct("alice")), vec![0]);
    assert_eq!(c.nft_tokens_for_owner_and_kind(&acct("alice"), &acct("art")), vec![0]);
    assert!(c.nft_tokens_for_owner_and_kind(&acct("alice"), &acct("music")).is_empty());
}

#[test]
fn minting_n_tokens_gives_increasing_ids() {
    let mut c = Contract::new();
    let mut ids = Vec::new();
    for i in 0..5u32 {
        ids.push(c.show_token_id_counter());
        let who = if i % 2 == 0 { "alice" } else { "bob" };
        c.nft_mint(meta("art"), acct(who));
    }
    assert_eq!(ids, vec![0, 1, 2, 3, 4]);
    for id in &ids {
        assert_eq!(c.nft_token(*id).unwrap().metadata.token_id, Some(*id));
    }
    assert_eq!(sorted(c.nft_tokens_for_owner(&acct("alice"))), vec![0, 2, 4]);
    assert_eq!(sorted(c.nft_tokens_for_owner(&acct("bob"))), vec![1, 3]);
}

#[test]
fn token_id_count_skips_an_id() {
    let mut c = Contract::new();
    c.token_id_count();
    assert_eq!(c.show_token_id_counter(), 1);
    c.nft_mint(meta("art"), acct("alice"));
    assert!(c.nft_token(0).is_none());
    assert_eq!(owner_of(&c, 1), Some(acct("alice")));
    assert_eq!(c.show_token_id_counter(), 2);
}

#[test]
fn self_transfer_is_noop() {
    let mut c = ledger_with_alice_token();
    let r = c.nft_transfer(acct("alice"), 1, acct("alice"), 0, None);
    assert_eq!(r, Err(TransferError::NoOp));
    assert_eq!(owner_of(&c, 0), Some(acct("alice")));
    assert_eq!(c.nft_tokens_for_owner(&acct("alice")), vec![0]);
    let r = c.nft_transfer_call(acct("alice"), 1, acct("alice"), 0, None, acct("m"));
    assert!(matches!(r, Err(TransferError::NoOp)));
    assert_eq!(c.nft_tokens_for_owner(&acct("alice")), vec![0]);
}

#[test]
fn simple_transfer_moves_token() {
    let mut c = ledger_with_alice_token();
    c.nft_mint(meta("music"), acct("alice"));
    let r = c.nft_transfer(acct("alice"), 1, acct("bob"), 0, Some(acct("memo")));
    assert_eq!(r, Ok(()));
    assert_eq!(owner_of(&c, 0), Some(acct("bob")));
    assert_eq!(c.nft_tokens_for_owner(&acct("alice")), vec![1]);
    assert_eq!(c.nft_tokens_for_owner(&acct("bob")), vec![0]);
    assert_eq!(c.nft_tokens_for_owner_and_kind(&acct("bob"), &acct("art")), vec![0]);
    assert!(c.nft_tokens_for_owner_and_kind(&acct("alice"), &acct("art")).is_empty());
    assert_eq!(c.nft_tokens_for_owner_and_kind(&acct("alice"), &acct("music")), vec![1]);
}

#[test]
fn transfer_needs_exactly_one_unit_deposit() {
    let mut c = ledger_with_alice_token();
    assert_eq!(
        c.nft_transfer(acct("alice"), 0, acct("bob"), 0, None),
        Err(TransferError::DepositRequired)
    );
    assert_eq!(
        c.nft_transfer(acct("alice"), 2, acct("bob"), 0, None),
        Err(TransferError::DepositRequired)
    );
    assert!(matches!(
        c.nft_transfer_call(acct("alice"), 0, acct("bob"), 0, None, acct("m")),
        Err(TransferError::DepositRequired)
    ));
    assert_eq!(owner_of(&c, 0), Some(acct("alice")));
}

#[test]
fn transfer_of_unknown_token_fails() {
    let mut c = ledger_with_alice_token();
    assert_eq!(
        c.nft_transfer(acct("alice"), 1, acct("bob"), 7, None),
        Err(TransferError::TokenNotFound)
    );
    assert!(c.nft_token(7).is_none());
}

#[test]
fn non_owner_transfer_unauthorized() {
    let mut c = ledger_with_alice_token();
    let r = c.nft_transfer(acct("mallory"), 1, acct("bob"), 0, None);
    assert_eq!(r, Err(TransferError::Unauthorized));
    let r = c.nft_transfer_call(acct("mallory"), 1, acct("mallory"), 0, None, acct("m"));
    assert!(matches!(r, Err(TransferError::Unauthorized)));
    assert_eq!(owner_of(&c, 0), Some(acct("alice")));
    assert_eq!(c.nft_tokens_for_owner(&acct("alice")), vec![0]);
    assert!(c.nft_tokens_for_owner(&acct("bob")).is_empty());
    assert!(c.nft_tokens_for_owner(&acct("mallory")).is_empty());
}

#[test]
fn transfer_call_is_optimistic_and_returns_hook_arguments() {
    let mut c = ledger_with_alice_token();
    let call = c
        .nft_transfer_call(acct("alice"), 1, acct("bob"), 0, None, acct("hello"))
        .unwrap();
    assert_eq!(call.sender_id, "alice");
    assert_eq!(call.previous_owner_id, "alice");
    assert_eq!(call.receiver_id, "bob");
    assert_eq!(call.token_id, 0);
    assert_eq!(call.msg, "hello");
    assert_eq!(owner_of(&c, 0), Some(acct("bob")));
}

#[test]
fn rollback_restores_previous_owner() {
    let mut c = ledger_with_alice_token();
    let call = c
        .nft_transfer_call(acct("alice"), 1, acct("bob"), 0, None, acct("m"))
        .unwrap();
    let done = c.nft_resolve_transfer(
        call.previous_owner_id,
        call.receiver_id,
        call.token_id,
        &PromiseOutcome::Successful(b"true".to_vec()),
    );
    assert!(!done);
    assert_eq!(owner_of(&c, 0), Some(acct("alice")));
    assert_eq!(c.nft_tokens_for_owner(&acct("alice")), vec![0]);
    assert!(c.nft_tokens_for_owner(&acct("bob")).is_empty());
    assert_eq!(c.nft_tokens_for_owner_and_kind(&acct("alice"), &acct("art")), vec![0]);
    assert!(c.nft_tokens_for_owner_and_kind(&acct("bob"), &acct("art")).is_empty());
}

#[test]
fn accepted_transfer_stands() {
    let mut c = ledger_with_alice_token();
    let call = c
        .nft_transfer_call(acct("alice"), 1, acct("bob"), 0, None, acct("m"))
        .unwrap();
    let done = c.nft_resolve_transfer(
        call.previous_owner_id,
        call.receiver_id,
        call.token_id,
        &PromiseOutcome::Successful(b" false\n".to_vec()),
    );
    assert!(done);
    assert_eq!(owner_of(&c, 0), Some(acct("bob")));
    assert_eq!(c.nft_tokens_for_owner(&acct("bob")), vec![0]);
    assert!(c.nft_tokens_for_owner(&acct("alice")).is_empty());
}

#[test]
fn failed_or_missing_result_rolls_back() {
    let outcomes = vec![
        PromiseOutcome::Failed,
        PromiseOutcome::NotReady,
        PromiseOutcome::Successful(b"not json".to_vec()),
        PromiseOutcome::Successful(b"0".to_vec()),
        PromiseOutcome::Successful(Vec::new()),
    ];
    for outcome in outcomes {
        let mut c = ledger_with_alice_token();
        c.nft_transfer_call(acct("alice"), 1, acct("bob"), 0, None, acct("m"))
            .unwrap();
        let done = c.nft_resolve_transfer(acct("alice"), acct("bob"), 0, &outcome);
        assert!(!done);
        assert_eq!(owner_of(&c, 0), Some(acct("alice")));
        assert_eq!(c.nft_tokens_for_owner(&acct("alice")), vec![0]);
        assert!(c.nft_tokens_for_owner(&acct("bob")).is_empty());
    }
}

#[test]
fn resolve_spares_a_later_transfer() {
    let mut c = ledger_with_alice_token();
    c.nft_transfer_call(acct("alice"), 1, acct("bob"), 0, None, acct("m"))
        .unwrap();
    assert_eq!(c.nft_transfer(acct("bob"), 1, acct("carol"), 0, None), Ok(()));
    let done = c.nft_resolve_transfer(
        acct("alice"),
        acct("bob"),
        0,
        &PromiseOutcome::Successful(b"true".to_vec()),
    );
    assert!(done);
    assert_eq!(owner_of(&c, 0), Some(acct("carol")));
    assert_eq!(c.nft_tokens_for_owner(&acct("carol")), vec![0]);
    assert!(c.nft_tokens_for_owner(&acct("alice")).is_empty());
    assert!(c.nft_tokens_for_owner(&acct("bob")).is_empty());
}

#[test]
fn resolve_of_unknown_token_stands() {
    let mut c = ledger_with_alice_token();
    let done = c.nft_resolve_transfer(acct("alice"), acct("bob"), 9, &PromiseOutcome::Failed);
    assert!(done);
    assert_eq!(owner_of(&c, 0), Some(acct("alice")));
}

#[test]
fn scenario_rejected_transfer_call_returns_to_alice() {
    let mut c = Contract::new();
    c.nft_mint(meta("art"), acct("alice"));
    let call = c
        .nft_transfer_call(acct("alice"), 1, acct("bob"), 0, None, acct("m"))
        .unwrap();
    let done = c.nft_resolve_transfer(
        call.previous_owner_id,
        call.receiver_id,
        call.token_id,
        &PromiseOutcome::Successful(b"true".to_vec()),
    );
    assert_eq!(owner_of(&c, 0), Some(acct("alice")));
    assert!(!done);
}

#[test]
fn likes_increment_and_persist() {
    let mut c = ledger_with_alice_token();
    assert_eq!(c.nft_check_candidate_like(0), Some(0));
    assert_eq!(c.nft_candidate_add_like(0), Some(1));
    assert_eq!(c.nft_candidate_add_like(0), Some(2));
    assert_eq!(c.nft_check_candidate_like(0), Some(2));
    assert_eq!(c.nft_token(0).unwrap().metadata.num_of_likes, Some(2));
}

#[test]
fn likes_of_unknown_token_are_zero() {
    let mut c = ledger_with_alice_token();
    assert_eq!(c.nft_candidate_add_like(5), Some(0));
    assert_eq!(c.nft_check_candidate_like(5), Some(0));
    assert!(c.nft_token(5).is_none());
}

#[test]
fn payload_decoding() {
    assert_eq!(decode_bool_payload(&b"true".to_vec()), Some(true));
    assert_eq!(decode_bool_payload(&b"false".to_vec()), Some(false));
    assert_eq!(decode_bool_payload(&b" \t\r\ntrue \n".to_vec()), Some(true));
    assert_eq!(decode_bool_payload(&b"tru".to_vec()), None);
    assert_eq!(decode_bool_payload(&b"\"true\"".to_vec()), None);
    assert_eq!(decode_bool_payload(&b"true x".to_vec()), None);
    assert_eq!(decode_bool_payload(&b"1".to_vec()), None);
    assert_eq!(decode_bool_payload(&Vec::new()), None);
}

#[test]
fn rollback_decision() {
    assert!(rollback_requested(&PromiseOutcome::Failed));
    assert!(rollback_requested(&PromiseOutcome::NotReady));
    assert!(rollback_requested(&PromiseOutcome::Successful(b"true".to_vec())));
    assert!(rollback_requested(&PromiseOutcome::Successful(b"{}".to_vec())));
    assert!(!rollback_requested(&PromiseOutcome::Successful(b"false".to_vec())));
}
