use spl_token_2022::extension::BaseStateWithExtensions;
use token_client::address::parse_address;
use token_client::error::TokenError;
use token_client::state::{decode_account, decode_mint};

fn coption_key(key: Option<[u8; 32]>) -> Vec<u8> {
    let mut v = Vec::new();
    match key {
        Some(k) => {
            v.extend_from_slice(&[1, 0, 0, 0]);
            v.extend_from_slice(&k);
        }
        None => {
            v.extend_from_slice(&[0, 0, 0, 0]);
            v.extend_from_slice(&[0u8; 32]);
        }
    }
    v
}

fn mint_base(authority: Option<[u8; 32]>, supply: u64, decimals: u8, initialized: u8) -> Vec<u8> {
    let mut v = Vec::new();
    v.extend_from_slice(&coption_key(authority));
    v.extend_from_slice(&supply.to_le_bytes());
    v.push(decimals);
    v.push(initialized);
    v.extend_from_slice(&coption_key(None));
    assert_eq!(v.len(), 82);
    v
}

fn account_base(mint: [u8; 32], owner: [u8; 32], amount: u64, state: u8) -> Vec<u8> {
    let mut v = Vec::new();
    v.extend_from_slice(&mint);
    v.extend_from_slice(&owner);
    v.extend_from_slice(&amount.to_le_bytes());
    v.extend_from_slice(&coption_key(None));
    v.push(state);
    v.extend_from_slice(&[0, 0, 0, 0]);
    v.extend_from_slice(&0u64.to_le_bytes());
    v.extend_from_slice(&0u64.to_le_bytes());
    v.extend_from_slice(&coption_key(None));
    assert_eq!(v.len(), 165);
    v
}

fn fee_config_entry() -> Vec<u8> {
    let mut v = Vec::new();
    v.extend_from_slice(&1u16.to_le_bytes());
    v.extend_from_slice(&108u16.to_le_bytes());
    v.extend_from_slice(&[9u8; 32]);
    v.extend_from_slice(&[8u8; 32]);
    v.extend_from_slice(&555u64.to_le_bytes());
    v.extend_from_slice(&1u64.to_le_bytes());
    v.extend_from_slice(&2u64.to_le_bytes());
    v.extend_from_slice(&3u16.to_le_bytes());
    v.extend_from_slice(&4u64.to_le_bytes());
    v.extend_from_slice(&5u64.to_le_bytes());
    v.extend_from_slice(&123u16.to_le_bytes());
    v
}

#[test]
fn decodes_a_bare_mint() {
    let data = mint_base(Some([7; 32]), 1_000_000, 6, 1);
    let info = decode_mint(&data).unwrap();
    assert_eq!(info.mint_authority.unwrap().bytes, [7; 32]);
    assert_eq!(info.supply, 1_000_000);
    assert_eq!(info.decimals, 6);
    assert!(info.freeze_authority.is_none());
    assert!(info.extension_types.is_empty());
    assert!(info.transfer_fee.is_none());
}

#[test]
fn decodes_a_mint_with_fee_configuration() {
    let mut data = mint_base(Some([7; 32]), 42, 6, 1);
    data.extend_from_slice(&[0u8; 83]);
    data.push(1);
    data.extend_from_slice(&fee_config_entry());
    assert_eq!(data.len(), 278);

    let info = decode_mint(&data).unwrap();
    assert_eq!(info.extension_types, vec![1]);
    let fee = info.transfer_fee.unwrap();
    assert_eq!(fee.config_authority.bytes, [9; 32]);
    assert_eq!(fee.withdraw_authority.bytes, [8; 32]);
    assert_eq!(fee.withheld_amount, 555);
    assert_eq!(fee.older_epoch, 1);
    assert_eq!(fee.older_maximum_fee, 2);
    assert_eq!(fee.older_basis_points, 3);
    assert_eq!(fee.newer_epoch, 4);
    assert_eq!(fee.newer_maximum_fee, 5);
    assert_eq!(fee.newer_basis_points, 123);

    // the reference decoder agrees on the base fields
    let sdk = spl_token_2022::extension::StateWithExtensions::<spl_token_2022::state::Mint>::unpack(
        &data,
    )
    .unwrap();
    assert_eq!(sdk.base.supply, info.supply);
    assert_eq!(sdk.base.decimals, info.decimals);
}

#[test]
fn rejects_malformed_mints() {
    assert_eq!(decode_mint(&vec![0u8; 81]).unwrap_err(), TokenError::InvalidAccountData);
    assert_eq!(decode_mint(&vec![0u8; 355]).unwrap_err(), TokenError::InvalidAccountData);

    let mut bad_tag = mint_base(Some([7; 32]), 1, 6, 1);
    bad_tag[0] = 2;
    assert_eq!(decode_mint(&bad_tag).unwrap_err(), TokenError::InvalidAccountData);

    let bad_init = mint_base(Some([7; 32]), 1, 6, 2);
    assert_eq!(decode_mint(&bad_init).unwrap_err(), TokenError::InvalidAccountData);

    let uninitialized = mint_base(Some([7; 32]), 1, 6, 0);
    assert_eq!(decode_mint(&uninitialized).unwrap_err(), TokenError::UninitializedAccount);

    // nonzero padding between the base and the account-type byte
    let mut bad_padding = mint_base(Some([7; 32]), 1, 6, 1);
    bad_padding.extend_from_slice(&[0u8; 83]);
    bad_padding[90] = 1;
    bad_padding.push(1);
    bad_padding.extend_from_slice(&fee_config_entry());
    assert_eq!(decode_mint(&bad_padding).unwrap_err(), TokenError::InvalidAccountData);

    // an account-typed record handed to the mint decoder
    let mut wrong_type = mint_base(Some([7; 32]), 1, 6, 1);
    wrong_type.extend_from_slice(&[0u8; 83]);
    wrong_type.push(2);
    wrong_type.extend_from_slice(&fee_config_entry());
    assert_eq!(decode_mint(&wrong_type).unwrap_err(), TokenError::InvalidAccountData);

    // an entry whose value overruns the record
    let mut truncated = mint_base(Some([7; 32]), 1, 6, 1);
    truncated.extend_from_slice(&[0u8; 83]);
    truncated.push(1);
    truncated.extend_from_slice(&1u16.to_le_bytes());
    truncated.extend_from_slice(&200u16.to_le_bytes());
    truncated.extend_from_slice(&[0u8; 10]);
    assert_eq!(decode_mint(&truncated).unwrap_err(), TokenError::InvalidAccountData);
}

#[test]
fn account_without_fee_extension_has_no_withheld_amount() {
    let data = account_base([1; 32], [2; 32], 900, 1);
    let info = decode_account(&data).unwrap();
    assert_eq!(info.mint.bytes, [1; 32]);
    assert_eq!(info.owner.bytes, [2; 32]);
    assert_eq!(info.amount, 900);
    assert_eq!(info.state, 1);
    assert!(info.withheld_amount.is_none());
    assert!(info.extension_types.is_empty());
}

#[test]
fn account_with_fee_extension_reports_the_exact_withheld_amount() {
    let mut data = account_base([1; 32], [2; 32], 900, 1);
    data.push(2);
    data.extend_from_slice(&2u16.to_le_bytes());
    data.extend_from_slice(&8u16.to_le_bytes());
    data.extend_from_slice(&777u64.to_le_bytes());
    let info = decode_account(&data).unwrap();
    assert_eq!(info.extension_types, vec![2]);
    assert_eq!(info.withheld_amount, Some(777));

    // the reference decoder agrees
    let sdk =
        spl_token_2022::extension::StateWithExtensions::<spl_token_2022::state::Account>::unpack(
            &data,
        )
        .unwrap();
    let fee = sdk
        .get_extension::<spl_token_2022::extension::transfer_fee::TransferFeeAmount>()
        .unwrap();
    assert_eq!(u64::from(fee.withheld_amount), 777);
}

#[test]
fn rejects_malformed_accounts() {
    assert_eq!(decode_account(&vec![0u8; 100]).unwrap_err(), TokenError::InvalidAccountData);
    assert_eq!(decode_account(&vec![0u8; 355]).unwrap_err(), TokenError::InvalidAccountData);

    let bad_state = account_base([1; 32], [2; 32], 1, 3);
    assert_eq!(decode_account(&bad_state).unwrap_err(), TokenError::InvalidAccountData);

    let uninitialized = account_base([1; 32], [2; 32], 1, 0);
    assert_eq!(decode_account(&uninitialized).unwrap_err(), TokenError::UninitializedAccount);

    // a mint-typed record handed to the account decoder
    let mut wrong_type = account_base([1; 32], [2; 32], 1, 1);
    wrong_type.push(1);
    assert_eq!(decode_account(&wrong_type).unwrap_err(), TokenError::InvalidAccountData);
}

#[test]
fn invalid_address_strings_fail_before_any_network_use() {
    // commands parse the operator's address first; each of these fails there
    assert_eq!(parse_address("").unwrap_err(), TokenError::InvalidAddress);
    assert_eq!(parse_address("0OIl").unwrap_err(), TokenError::InvalidAddress);
    assert_eq!(parse_address("abc").unwrap_err(), TokenError::InvalidAddress);
    assert_eq!(
        parse_address("TokenzQdBNbLqP5VEhdkAS6EPFLC1PHnBqCXEpPxuE").unwrap_err(),
        TokenError::InvalidAddress
    );
    let ok = parse_address("TokenzQdBNbLqP5VEhdkAS6EPFLC1PHnBqCXEpPxuEb").unwrap();
    assert_eq!(ok.bytes, spl_token_2022::id().to_bytes());
}
