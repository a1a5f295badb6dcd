use candid::Principal;

use wallet_backend::account::AccountId;
use wallet_backend::ledger::{
    icrc2_balance_of, icrc2_metadata, icrc2_total_supply, icrc2_transfer, wallet_or_default,
    TokenWallet, TransferError,
};

fn account_of(text: &str) -> AccountId {
    AccountId::from_bytes(Principal::from_text(text).unwrap().as_slice().to_vec())
}

fn mock_caller() -> AccountId {
    account_of("5deld-oaeaa-aaaaa-qaafq-cai")
}

fn mock_recipient() -> AccountId {
    account_of("a4fnv-bqfaa-aaaaa-qaafq-cai")
}

#[test]
fn test_initial_balance() {
    let wallet = TokenWallet::new();
    let caller = mock_caller();
    let balance = icrc2_balance_of(&wallet, &caller);
    assert_eq!(balance, 0);
}

#[test]
fn test_transfer_success() {
    let mut wallet = TokenWallet::new();
    let sender = mock_caller();
    let recipient = mock_recipient();

    wallet.set_balance(sender.clone(), 100);

    let result = icrc2_transfer(&mut wallet, sender.clone(), recipient.clone(), 50);
    assert!(result.is_ok());

    assert_eq!(icrc2_balance_of(&wallet, &sender), 50);
    assert_eq!(icrc2_balance_of(&wallet, &recipient), 50);
}

#[test]
fn test_transfer_insufficient_funds() {
    let mut wallet = TokenWallet::new();
    let sender = mock_caller();
    let recipient = mock_recipient();

    wallet.set_balance(sender.clone(), 30);

    let result = icrc2_transfer(&mut wallet, sender, recipient, 50);
    assert_eq!(result, Err(TransferError::InsufficientFunds));
}

#[test]
fn test_transfer_invalid_recipient() {
    let mut wallet = TokenWallet::new();
    let sender = mock_caller();
    let invalid_recipient = AccountId::anonymous();

    wallet.set_balance(sender.clone(), 100);

    let result = icrc2_transfer(&mut wallet, sender, invalid_recipient, 50);
    assert_eq!(result, Err(TransferError::InvalidRecipient));
}

#[test]
fn test_metadata_query() {
    let metadata = icrc2_metadata(TokenWallet::new());

    assert_eq!(metadata.name, "MyToken".to_string());
    assert_eq!(metadata.symbol, "MTK".to_string());
    assert_eq!(metadata.decimals, 8);
    assert!(metadata.fee.is_none());
}

#[test]
fn test_total_supply_query() {
    let wallet = TokenWallet::new();
    let total_supply = icrc2_total_supply(&wallet);
    assert_eq!(total_supply, 1_000_000_000);
}

#[test]
fn test_balance_query() {
    let mut wallet = TokenWallet::new();
    let caller = mock_caller();

    wallet.set_balance(caller.clone(), 100);

    let balance = icrc2_balance_of(&wallet, &caller);
    assert_eq!(balance, 100);
}

#[test]
fn test_default_wallet_materialization() {
    let wallet = wallet_or_default(None);
    assert_eq!(wallet.total_supply, 1_000_000_000);
    assert_eq!(wallet.name, "MyToken".to_string());
    assert_eq!(wallet.symbol, "MTK".to_string());
    assert_eq!(wallet.decimals, 8);
    assert!(wallet.balances.is_empty());

    let mut stored = TokenWallet::new();
    stored.set_balance(mock_caller(), 7);
    let loaded = wallet_or_default(Some(stored));
    assert_eq!(icrc2_balance_of(&loaded, &mock_caller()), 7);
}

#[test]
fn test_transfer_conserves_pair_sum() {
    let mut wallet = TokenWallet::new();
    let sender = mock_caller();
    let recipient = mock_recipient();
    let bystander = account_of("aaaaa-aa");

    wallet.set_balance(sender.clone(), 100);
    wallet.set_balance(bystander.clone(), 11);

    let before =
        icrc2_balance_of(&wallet, &sender) + icrc2_balance_of(&wallet, &recipient);
    let result = icrc2_transfer(&mut wallet, sender.clone(), recipient.clone(), 40);
    assert!(result.is_ok());

    assert_eq!(icrc2_balance_of(&wallet, &sender), 60);
    assert_eq!(icrc2_balance_of(&wallet, &recipient), 40);
    let after = icrc2_balance_of(&wallet, &sender) + icrc2_balance_of(&wallet, &recipient);
    assert_eq!(before, after);
    assert_eq!(icrc2_balance_of(&wallet, &bystander), 11);
}

#[test]
fn test_insufficient_funds_balances_unchanged() {
    let mut wallet = TokenWallet::new();
    let sender = mock_caller();
    let recipient = mock_recipient();

    wallet.set_balance(sender.clone(), 30);

    let sender_before = icrc2_balance_of(&wallet, &sender);
    let recipient_before = icrc2_balance_of(&wallet, &recipient);
    let result = icrc2_transfer(&mut wallet, sender.clone(), recipient.clone(), 50);
    assert_eq!(result, Err(TransferError::InsufficientFunds));
    assert_eq!(icrc2_balance_of(&wallet, &sender), sender_before);
    assert_eq!(icrc2_balance_of(&wallet, &recipient), recipient_before);
}

#[test]
fn test_invalid_recipient_any_amount() {
    let mut wallet = TokenWallet::new();
    let sender = mock_caller();

    wallet.set_balance(sender.clone(), 100);

    for amount in [0u64, 1, 100] {
        let result =
            icrc2_transfer(&mut wallet, sender.clone(), AccountId::anonymous(), amount);
        assert_eq!(result, Err(TransferError::InvalidRecipient));
        assert_eq!(icrc2_balance_of(&wallet, &sender), 100);
    }
}

#[test]
fn test_insufficient_funds_reported_before_invalid_recipient() {
    let mut wallet = TokenWallet::new();
    let sender = mock_caller();

    wallet.set_balance(sender.clone(), 30);

    let result = icrc2_transfer(&mut wallet, sender.clone(), AccountId::anonymous(), 50);
    assert_eq!(result, Err(TransferError::InsufficientFunds));
    assert_eq!(icrc2_balance_of(&wallet, &sender), 30);
}

#[test]
fn test_supply_invariant_over_sequence() {
    let mut wallet = TokenWallet::new();
    let a = mock_caller();
    let b = mock_recipient();
    let c = account_of("aaaaa-aa");

    wallet.set_balance(a.clone(), 500);
    assert_eq!(icrc2_total_supply(&wallet), 1_000_000_000);

    assert!(icrc2_transfer(&mut wallet, a.clone(), b.clone(), 200).is_ok());
    assert_eq!(icrc2_total_supply(&wallet), 1_000_000_000);

    assert!(icrc2_transfer(&mut wallet, b.clone(), c.clone(), 150).is_ok());
    assert_eq!(icrc2_total_supply(&wallet), 1_000_000_000);

    assert!(icrc2_transfer(&mut wallet, c.clone(), a.clone(), 9999).is_err());
    assert_eq!(icrc2_total_supply(&wallet), 1_000_000_000);

    assert!(icrc2_transfer(&mut wallet, c.clone(), AccountId::anonymous(), 10).is_err());
    assert_eq!(icrc2_total_supply(&wallet), 1_000_000_000);

    assert_eq!(icrc2_balance_of(&wallet, &a), 300);
    assert_eq!(icrc2_balance_of(&wallet, &b), 50);
    assert_eq!(icrc2_balance_of(&wallet, &c), 150);
}

#[test]
fn test_self_transfer_is_noop() {
    let mut wallet = TokenWallet::new();
    let sender = mock_caller();

    wallet.set_balance(sender.clone(), 100);

    let result = icrc2_transfer(&mut wallet, sender.clone(), sender.clone(), 60);
    assert!(result.is_ok());
    assert_eq!(icrc2_balance_of(&wallet, &sender), 100);
}

#[test]
fn test_zero_amount_transfer_succeeds() {
    let mut wallet = TokenWallet::new();
    let sender = mock_caller();
    let recipient = mock_recipient();

    let result = icrc2_transfer(&mut wallet, sender.clone(), recipient.clone(), 0);
    assert!(result.is_ok());
    assert_eq!(icrc2_balance_of(&wallet, &sender), 0);
    assert_eq!(icrc2_balance_of(&wallet, &recipient), 0);
}

#[test]
fn test_transfer_entire_balance() {
    let mut wallet = TokenWallet::new();
    let sender = mock_caller();
    let recipient = mock_recipient();

    wallet.set_balance(sender.clone(), 75);

    let result = icrc2_transfer(&mut wallet, sender.clone(), recipient.clone(), 75);
    assert!(result.is_ok());
    assert_eq!(icrc2_balance_of(&wallet, &sender), 0);
    assert_eq!(icrc2_balance_of(&wallet, &recipient), 75);
}

#[test]
fn test_set_balance_overwrites() {
    let mut wallet = TokenWallet::new();
    let caller = mock_caller();

    wallet.set_balance(caller.clone(), 100);
    wallet.set_balance(caller.clone(), 40);
    assert_eq!(icrc2_balance_of(&wallet, &caller), 40);
    assert_eq!(wallet.balances.len(), 1);
}

#[test]
fn test_anonymous_matches_host_identity() {
    let anon = AccountId::anonymous();
    assert_eq!(anon.as_bytes().as_slice(), Principal::anonymous().as_slice());
    assert!(anon.is_anonymous());

    let host_anon = AccountId::from_bytes(Principal::anonymous().as_slice().to_vec());
    assert!(host_anon.is_anonymous());
    assert!(!mock_caller().is_anonymous());
}

#[test]
fn test_eq_account() {
    let a = mock_caller();
    let b = mock_caller();
    let c = mock_recipient();
    assert!(a.eq_account(&b));
    assert!(!a.eq_account(&c));
    assert!(!a.eq_account(&AccountId::anonymous()));
}
