use solana_program::pubkey::Pubkey;
use token_client::address::Address;
use token_client::commands::{
    associated_token_account, create_token_instructions, mint_account_space, mint_instructions,
    token_program, transfer_instructions, NEW_TOKEN_DECIMALS, TRANSFER_FEE_BASIS_POINTS,
};
use token_client::error::TokenError;
use token_client::instruction::BuiltInstruction;

fn addr(fill: u8) -> Address {
    Address::new([fill; 32])
}

fn pk(a: &Address) -> Pubkey {
    Pubkey::new_from_array(a.bytes)
}

fn assert_matches_sdk(built: &BuiltInstruction, sdk: &solana_program::instruction::Instruction) {
    assert_eq!(built.program_id.bytes, sdk.program_id.to_bytes());
    assert_eq!(built.data, sdk.data);
    assert_eq!(built.accounts.len(), sdk.accounts.len());
    for (mine, theirs) in built.accounts.iter().zip(sdk.accounts.iter()) {
        assert_eq!(mine.address.bytes, theirs.pubkey.to_bytes());
        assert_eq!(mine.is_signer, theirs.is_signer);
        assert_eq!(mine.is_writable, theirs.is_writable);
    }
}

#[test]
fn token_program_is_the_extension_aware_id() {
    assert_eq!(token_program().bytes, spl_token_2022::id().to_bytes());
}

#[test]
fn mint_space_covers_base_type_and_fee_entry() {
    assert_eq!(mint_account_space(), 278);
    let sdk = spl_token_2022::extension::ExtensionType::try_calculate_account_len::<
        spl_token_2022::state::Mint,
    >(&[spl_token_2022::extension::ExtensionType::TransferFeeConfig])
    .unwrap();
    assert_eq!(mint_account_space(), sdk);
}

#[test]
fn derivation_is_deterministic_and_input_sensitive() {
    let owner = addr(3);
    let mint = addr(4);
    let program = token_program();
    let first = associated_token_account(&owner, &mint, &program);
    let second = associated_token_account(&owner, &mint, &program);
    assert_eq!(first.bytes, second.bytes);
    let other_owner = associated_token_account(&addr(5), &mint, &program);
    assert_ne!(first.bytes, other_owner.bytes);
    let other_mint = associated_token_account(&owner, &addr(6), &program);
    assert_ne!(first.bytes, other_mint.bytes);
    // not an echo of any input
    assert_ne!(first.bytes, owner.bytes);
    assert_ne!(first.bytes, mint.bytes);
    let sdk = spl_associated_token_account::get_associated_token_address_with_program_id(
        &pk(&owner),
        &pk(&mint),
        &pk(&program),
    );
    assert_eq!(first.bytes, sdk.to_bytes());
}

#[test]
fn create_token_emits_three_instructions_in_fixed_order() {
    let payer = addr(1);
    let mint = addr(2);
    let program = token_program();
    let ixs = create_token_instructions(&payer, &mint, 5_000_000, 278, &program).unwrap();
    assert_eq!(ixs.len(), 3);

    let sdk_create = solana_system_interface::instruction::create_account(
        &pk(&payer),
        &pk(&mint),
        5_000_000,
        278,
        &pk(&program),
    );
    assert_matches_sdk(&ixs[0], &sdk_create);

    let sdk_fee =
        spl_token_2022::extension::transfer_fee::instruction::initialize_transfer_fee_config(
            &pk(&program),
            &pk(&mint),
            Some(&pk(&payer)),
            Some(&pk(&payer)),
            TRANSFER_FEE_BASIS_POINTS,
            u64::MAX,
        )
        .unwrap();
    assert_matches_sdk(&ixs[1], &sdk_fee);

    let sdk_init = spl_token_2022::instruction::initialize_mint2(
        &pk(&program),
        &pk(&mint),
        &pk(&payer),
        None,
        NEW_TOKEN_DECIMALS,
    )
    .unwrap();
    assert_matches_sdk(&ixs[2], &sdk_init);
}

#[test]
fn create_token_rejects_a_foreign_program_id() {
    let r = create_token_instructions(&addr(1), &addr(2), 1, 278, &addr(9));
    assert_eq!(r.unwrap_err(), TokenError::IncorrectProgram);
}

#[test]
fn mint_emits_one_instruction_when_the_account_exists() {
    let payer = addr(1);
    let mint = addr(2);
    let program = token_program();
    let ixs = mint_instructions(&payer, &mint, 1_500_000, true, &program).unwrap();
    assert_eq!(ixs.len(), 1);
    let destination = associated_token_account(&payer, &mint, &program);
    let sdk = spl_token_2022::instruction::mint_to(
        &pk(&program),
        &pk(&mint),
        &pk(&destination),
        &pk(&payer),
        &[],
        1_500_000,
    )
    .unwrap();
    assert_matches_sdk(&ixs[0], &sdk);
    // operation code, then the amount in little-endian base units
    assert_eq!(ixs[0].data[0], 7);
    assert_eq!(&ixs[0].data[1..9], &1_500_000u64.to_le_bytes());
}

#[test]
fn mint_prepends_account_creation_when_missing() {
    let payer = addr(1);
    let mint = addr(2);
    let program = token_program();
    let ixs = mint_instructions(&payer, &mint, 25, false, &program).unwrap();
    assert_eq!(ixs.len(), 2);
    let sdk_create = spl_associated_token_account::instruction::create_associated_token_account(
        &pk(&payer),
        &pk(&payer),
        &pk(&mint),
        &pk(&program),
    );
    assert_matches_sdk(&ixs[0], &sdk_create);
    assert_eq!(ixs[1].data[0], 7);
}

#[test]
fn mint_rejects_a_foreign_program_id() {
    let r = mint_instructions(&addr(1), &addr(2), 5, true, &addr(9));
    assert_eq!(r.unwrap_err(), TokenError::IncorrectProgram);
}

#[test]
fn transfer_emits_one_instruction_when_the_recipient_account_exists() {
    let payer = addr(1);
    let recipient = addr(7);
    let mint = addr(2);
    let program = token_program();
    let ixs = transfer_instructions(&payer, &recipient, &mint, 9_000, 6, true, &program).unwrap();
    assert_eq!(ixs.len(), 1);
    let source = associated_token_account(&payer, &mint, &program);
    let destination = associated_token_account(&recipient, &mint, &program);
    let sdk = spl_token_2022::instruction::transfer_checked(
        &pk(&program),
        &pk(&source),
        &pk(&mint),
        &pk(&destination),
        &pk(&payer),
        &[],
        9_000,
        6,
    )
    .unwrap();
    assert_matches_sdk(&ixs[0], &sdk);
    assert_eq!(ixs[0].data[0], 12);
    assert_eq!(&ixs[0].data[1..9], &9_000u64.to_le_bytes());
    assert_eq!(ixs[0].data[9], 6);
}

#[test]
fn transfer_prepends_recipient_account_creation_when_missing() {
    let payer = addr(1);
    let recipient = addr(7);
    let mint = addr(2);
    let program = token_program();
    let ixs = transfer_instructions(&payer, &recipient, &mint, 9_000, 6, false, &program).unwrap();
    assert_eq!(ixs.len(), 2);
    let sdk_create = spl_associated_token_account::instruction::create_associated_token_account(
        &pk(&payer),
        &pk(&recipient),
        &pk(&mint),
        &pk(&program),
    );
    assert_matches_sdk(&ixs[0], &sdk_create);
    assert_eq!(ixs[1].data[0], 12);
}

#[test]
fn end_to_end_mint_amount_and_plan() {
    // mint state at precision 6, human amount "1.5", destination present
    let decimals = 6u8;
    let amount = token_client::amount::ui_amount_to_base("1.5", decimals).unwrap();
    assert_eq!(amount, 1_500_000);
    let program = token_program();
    let ixs = mint_instructions(&addr(1), &addr(2), amount, true, &program).unwrap();
    assert_eq!(ixs.len(), 1);
}
