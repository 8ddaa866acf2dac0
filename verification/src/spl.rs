//! The trusted boundary to the token-program SDK.
//!
//! Every function here is `external_body`: its body makes one call into an
//! outside crate and converts the result to plain values; its contract states
//! what that crate's source shows. Nothing else in the library is trusted.

use vstd::prelude::*;
use std::str::FromStr;
use crate::address::{Address, opt_view, system_program_id};
use crate::error::TokenError;
use crate::instruction::{
    AccountRole, BuiltInstruction, InstructionModel, create_account_model,
    initialize_mint2_model, initialize_transfer_fee_config_model, mint_to_model, role,
    transfer_checked_model,
};
use solana_program::pubkey::Pubkey;
use spl_token_2022::extension::ExtensionType;
use spl_token_2022::state::Mint;

verus! {

/// An encoded SDK instruction, opaque to the library; it only passes through
/// the conversion below.
#[verifier::external_type_specification]
#[verifier::external_body]
pub struct ExInstruction(solana_program::instruction::Instruction);

/// The 32 bytes that an address string decodes to, when it decodes at all.
pub uninterp spec fn decoded_address(s: Seq<char>) -> Option<Seq<u8>>;

/// The deterministically derived associated token account for a wallet,
/// a mint and a token program.
pub uninterp spec fn derived_token_account(
    wallet: Seq<u8>,
    mint: Seq<u8>,
    token_program: Seq<u8>,
) -> Seq<u8>;

/// Whether an id is one of the two token program ids that the SDK's
/// `check_spl_token_program_account` accepts.
pub uninterp spec fn is_spl_token_program(id: Seq<u8>) -> bool;

/// Whether an id is the extension-aware token program id that the SDK's
/// `check_program_account` accepts.
pub uninterp spec fn is_token_2022_program(id: Seq<u8>) -> bool;

/// Whether an id is the associated-token-account program id.
pub uninterp spec fn is_associated_token_program(id: Seq<u8>) -> bool;

/// Model of the create-associated-token-account instruction: funded by
/// `funder`, creating the derived account of (`wallet`, `mint`,
/// `token_program`).
pub open spec fn create_associated_account_instr(
    m: InstructionModel,
    funder: Seq<u8>,
    wallet: Seq<u8>,
    mint: Seq<u8>,
    token_program: Seq<u8>,
) -> bool {
    &&& is_associated_token_program(m.program_id)
    &&& m.accounts == seq![
        role(funder, true, true),
        role(derived_token_account(wallet, mint, token_program), false, true),
        role(wallet, false, false),
        role(mint, false, false),
        role(system_program_id(), false, false),
        role(token_program, false, false),
    ]
    &&& m.data == seq![0u8]
}

/// Relies on `Pubkey::from_str` of the ledger SDK: an address string decodes
/// to exactly 32 bytes or is rejected.
#[verifier::external_body]
pub(crate) fn decode_address(s: &str) -> (r: Result<Address, TokenError>)
    ensures
        match r {
            Ok(a) => decoded_address(s@) == Some(a@),
            Err(e) => e == TokenError::InvalidAddress && decoded_address(s@) is None,
        },
{
    match Pubkey::from_str(s) {
        Ok(pk) => Ok(Address { bytes: pk.to_bytes() }),
        Err(_) => Err(TokenError::InvalidAddress),
    }
}

/// Relies on `spl_token_2022::id`, whose value both of the SDK's program-id
/// checks accept (`check_program_account` accepts it alone).
#[verifier::external_body]
pub(crate) fn token_2022_program_id() -> (r: Address)
    ensures
        is_token_2022_program(r@),
        is_spl_token_program(r@),
{
    Address { bytes: spl_token_2022::id().to_bytes() }
}

/// Relies on `get_associated_token_address_with_program_id` of the
/// associated-token-account crate: a pure derivation from its three inputs.
#[verifier::external_body]
pub(crate) fn derive_token_account(
    wallet: &Address,
    mint: &Address,
    token_program: &Address,
) -> (r: Address)
    ensures
        r@ == derived_token_account(wallet@, mint@, token_program@),
{
    let pk = spl_associated_token_account::get_associated_token_address_with_program_id(
        &Pubkey::new_from_array(wallet.bytes),
        &Pubkey::new_from_array(mint.bytes),
        &Pubkey::new_from_array(token_program.bytes),
    );
    Address { bytes: pk.to_bytes() }
}

/// Relies on `ExtensionType::try_calculate_account_len` for a mint carrying
/// the transfer-fee configuration: 165 base bytes, one account-type byte, a
/// four-byte entry header and the 108-byte configuration, 278 in all.
#[verifier::external_body]
pub(crate) fn mint_len_with_transfer_fee() -> (r: usize)
    ensures
        r == 278usize,
{
    ExtensionType::try_calculate_account_len::<Mint>(&[ExtensionType::TransferFeeConfig])
        .unwrap_or(278)
}

/// Relies on `create_account` of the system-program interface crate: two
/// signing writable accounts and a fixed-layout payload.
#[verifier::external_body]
pub(crate) fn build_create_account(
    from: &Address,
    to: &Address,
    lamports: u64,
    space: u64,
    owner: &Address,
) -> (r: BuiltInstruction)
    ensures
        r@ == create_account_model(from@, to@, lamports, space, owner@),
{
    convert(solana_system_interface::instruction::create_account(
        &Pubkey::new_from_array(from.bytes),
        &Pubkey::new_from_array(to.bytes),
        lamports,
        space,
        &Pubkey::new_from_array(owner.bytes),
    ))
}

/// Relies on `initialize_transfer_fee_config` of the token-program crate,
/// which fails exactly when the program id is not the extension-aware one.
#[verifier::external_body]
pub(crate) fn build_initialize_transfer_fee_config(
    token_program: &Address,
    mint: &Address,
    config_authority: Option<Address>,
    withdraw_authority: Option<Address>,
    basis_points: u16,
    maximum_fee: u64,
) -> (r: Result<BuiltInstruction, TokenError>)
    ensures
        match r {
            Ok(ix) => is_token_2022_program(token_program@) && ix@
                == initialize_transfer_fee_config_model(
                token_program@,
                mint@,
                opt_view(config_authority),
                opt_view(withdraw_authority),
                basis_points,
                maximum_fee,
            ),
            Err(e) => !is_token_2022_program(token_program@)
                && e == TokenError::IncorrectProgram,
        },
{
    let conf = config_authority.map(|a| Pubkey::new_from_array(a.bytes));
    let withdraw = withdraw_authority.map(|a| Pubkey::new_from_array(a.bytes));
    spl_token_2022::extension::transfer_fee::instruction::initialize_transfer_fee_config(
        &Pubkey::new_from_array(token_program.bytes),
        &Pubkey::new_from_array(mint.bytes),
        conf.as_ref(),
        withdraw.as_ref(),
        basis_points,
        maximum_fee,
    )
    .map(convert)
    .map_err(|_| TokenError::IncorrectProgram)
}

/// Relies on `initialize_mint2` of the token-program crate, which fails
/// exactly when the program id is neither of the two token program ids.
#[verifier::external_body]
pub(crate) fn build_initialize_mint2(
    token_program: &Address,
    mint: &Address,
    mint_authority: &Address,
    freeze_authority: Option<Address>,
    decimals: u8,
) -> (r: Result<BuiltInstruction, TokenError>)
    ensures
        match r {
            Ok(ix) => is_spl_token_program(token_program@) && ix@ == initialize_mint2_model(
                token_program@,
                mint@,
                decimals,
                mint_authority@,
                opt_view(freeze_authority),
            ),
            Err(e) => !is_spl_token_program(token_program@)
                && e == TokenError::IncorrectProgram,
        },
{
    let freeze = freeze_authority.map(|a| Pubkey::new_from_array(a.bytes));
    spl_token_2022::instruction::initialize_mint2(
        &Pubkey::new_from_array(token_program.bytes),
        &Pubkey::new_from_array(mint.bytes),
        &Pubkey::new_from_array(mint_authority.bytes),
        freeze.as_ref(),
        decimals,
    )
    .map(convert)
    .map_err(|_| TokenError::IncorrectProgram)
}

/// Relies on `mint_to` of the token-program crate, called with no extra
/// signers, which fails exactly when the program id is neither token program.
#[verifier::external_body]
pub(crate) fn build_mint_to(
    token_program: &Address,
    mint: &Address,
    account: &Address,
    owner: &Address,
    amount: u64,
) -> (r: Result<BuiltInstruction, TokenError>)
    ensures
        match r {
            Ok(ix) => is_spl_token_program(token_program@) && ix@ == mint_to_model(
                token_program@,
                mint@,
                account@,
                owner@,
                amount,
            ),
            Err(e) => !is_spl_token_program(token_program@)
                && e == TokenError::IncorrectProgram,
        },
{
    spl_token_2022::instruction::mint_to(
        &Pubkey::new_from_array(token_program.bytes),
        &Pubkey::new_from_array(mint.bytes),
        &Pubkey::new_from_array(account.bytes),
        &Pubkey::new_from_array(owner.bytes),
        &[],
        amount,
    )
    .map(convert)
    .map_err(|_| TokenError::IncorrectProgram)
}

/// Relies on `transfer_checked` of the token-program crate, called with no
/// extra signers, which fails exactly when the program id is neither token
/// program.
#[verifier::external_body]
pub(crate) fn build_transfer_checked(
    token_program: &Address,
    source: &Address,
    mint: &Address,
    destination: &Address,
    owner: &Address,
    amount: u64,
    decimals: u8,
) -> (r: Result<BuiltInstruction, TokenError>)
    ensures
        match r {
            Ok(ix) => is_spl_token_program(token_program@) && ix@ == transfer_checked_model(
                token_program@,
                source@,
                mint@,
                destination@,
                owner@,
                amount,
                decimals,
            ),
            Err(e) => !is_spl_token_program(token_program@)
                && e == TokenError::IncorrectProgram,
        },
{
    spl_token_2022::instruction::transfer_checked(
        &Pubkey::new_from_array(token_program.bytes),
        &Pubkey::new_from_array(source.bytes),
        &Pubkey::new_from_array(mint.bytes),
        &Pubkey::new_from_array(destination.bytes),
        &Pubkey::new_from_array(owner.bytes),
        &[],
        amount,
        decimals,
    )
    .map(convert)
    .map_err(|_| TokenError::IncorrectProgram)
}

/// Relies on `create_associated_token_account` of the associated-token-
/// account crate: six fixed accounts and a one-byte payload.
#[verifier::external_body]
pub(crate) fn build_create_associated_token_account(
    funder: &Address,
    wallet: &Address,
    mint: &Address,
    token_program: &Address,
) -> (r: BuiltInstruction)
    ensures
        is_associated_token_program(r@.program_id),
        create_associated_account_instr(r@, funder@, wallet@, mint@, token_program@),
{
    convert(spl_associated_token_account::instruction::create_associated_token_account(
        &Pubkey::new_from_array(funder.bytes),
        &Pubkey::new_from_array(wallet.bytes),
        &Pubkey::new_from_array(mint.bytes),
        &Pubkey::new_from_array(token_program.bytes),
    ))
}

/// Field-for-field conversion of an SDK instruction into the library's
/// representation; used only by the wrappers above.
#[verifier::external_body]
fn convert(ix: solana_program::instruction::Instruction) -> BuiltInstruction {
    BuiltInstruction {
        program_id: Address { bytes: ix.program_id.to_bytes() },
        accounts: ix
            .accounts
            .into_iter()
            .map(|m| AccountRole {
                address: Address { bytes: m.pubkey.to_bytes() },
                is_signer: m.is_signer,
                is_writable: m.is_writable,
            })
            .collect(),
        data: ix.data,
    }
}

} // verus!
