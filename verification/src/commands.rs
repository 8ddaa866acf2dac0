//! The instruction sequences behind each mutating command.
//!
//! Each builder is a pure function from validated inputs to the exact,
//! ordered list of instructions the command submits in one transaction.
//! Whether a destination account already exists on the ledger is a fact only
//! the caller can observe; it comes in as an argument and decides whether a
//! creation instruction is prepended.

use vstd::prelude::*;
use crate::address::Address;
use crate::error::TokenError;
use crate::instruction::{
    BuiltInstruction, create_account_model, initialize_mint2_model,
    initialize_transfer_fee_config_model, instruction_views, mint_to_model,
    transfer_checked_model,
};
use crate::spl;
use crate::spl::{
    create_associated_account_instr, derived_token_account, is_spl_token_program,
    is_token_2022_program,
};

verus! {

/// Fee rate of a newly created token, in basis points of each transfer.
pub const TRANSFER_FEE_BASIS_POINTS: u16 = 123;

/// Decimal precision of a newly created token.
pub const NEW_TOKEN_DECIMALS: u8 = 6;

/// The extension-aware token program id, accepted by every builder below.
pub fn token_program() -> (r: Address)
    ensures
        is_token_2022_program(r@),
        is_spl_token_program(r@),
{
    spl::token_2022_program_id()
}

/// The associated token account of a wallet for a mint: a pure, deterministic
/// derivation, so equal inputs always yield the equal address.
pub fn associated_token_account(
    wallet: &Address,
    mint: &Address,
    token_program: &Address,
) -> (r: Address)
    ensures
        r@ == derived_token_account(wallet@, mint@, token_program@),
{
    spl::derive_token_account(wallet, mint, token_program)
}

/// Associated-account derivation is a function of (wallet, mint, token
/// program) alone: two derivations on equal inputs yield the same address.
pub proof fn lemma_derivation_deterministic(
    wallet1: Seq<u8>,
    mint1: Seq<u8>,
    program1: Seq<u8>,
    wallet2: Seq<u8>,
    mint2: Seq<u8>,
    program2: Seq<u8>,
)
    requires
        wallet1 == wallet2,
        mint1 == mint2,
        program1 == program2,
    ensures
        derived_token_account(wallet1, mint1, program1) == derived_token_account(
            wallet2,
            mint2,
            program2,
        ),
{
}

/// Storage size of a mint account that carries the transfer-fee
/// configuration extension.
pub fn mint_account_space() -> (r: usize)
    ensures
        r == 278usize,
{
    spl::mint_len_with_transfer_fee()
}

/// The three instructions that create a new token: create the mint account
/// with the given rent-exempt balance and size, initialize its transfer-fee
/// configuration at the fixed rate with an unbounded maximum, and initialize
/// the mint itself with the payer as mint authority — always exactly three,
/// always in that order.
pub fn create_token_instructions(
    payer: &Address,
    mint: &Address,
    rent_lamports: u64,
    space: u64,
    token_program: &Address,
) -> (r: Result<Vec<BuiltInstruction>, TokenError>)
    ensures
        match r {
            Ok(ixs) => is_token_2022_program(token_program@) && is_spl_token_program(
                token_program@,
            ) && instruction_views(ixs@) == seq![
                create_account_model(payer@, mint@, rent_lamports, space, token_program@),
                initialize_transfer_fee_config_model(
                    token_program@,
                    mint@,
                    Some(payer@),
                    Some(payer@),
                    TRANSFER_FEE_BASIS_POINTS,
                    u64::MAX,
                ),
                initialize_mint2_model(token_program@, mint@, NEW_TOKEN_DECIMALS, payer@, None),
            ],
            Err(e) => (!is_token_2022_program(token_program@) || !is_spl_token_program(
                token_program@,
            )) && e == TokenError::IncorrectProgram,
        },
{
    let create = spl::build_create_account(payer, mint, rent_lamports, space, token_program);
    let fee_config = match spl::build_initialize_transfer_fee_config(
        token_program,
        mint,
        Some(*payer),
        Some(*payer),
        TRANSFER_FEE_BASIS_POINTS,
        u64::MAX,
    ) {
        Ok(ix) => ix,
        Err(e) => {
            return Err(e);
        },
    };
    let init_mint = match spl::build_initialize_mint2(
        token_program,
        mint,
        payer,
        None,
        NEW_TOKEN_DECIMALS,
    ) {
        Ok(ix) => ix,
        Err(e) => {
            return Err(e);
        },
    };
    let mut ixs: Vec<BuiltInstruction> = Vec::new();
    ixs.push(create);
    ixs.push(fee_config);
    ixs.push(init_mint);
    proof {
        assert(instruction_views(ixs@) =~= seq![
            create_account_model(payer@, mint@, rent_lamports, space, token_program@),
            initialize_transfer_fee_config_model(
                token_program@,
                mint@,
                Some(payer@),
                Some(payer@),
                TRANSFER_FEE_BASIS_POINTS,
                u64::MAX,
            ),
            initialize_mint2_model(token_program@, mint@, NEW_TOKEN_DECIMALS, payer@, None),
        ]);
    }
    Ok(ixs)
}

/// The instructions that credit `amount` base units of `mint` to the payer's
/// associated token account: one mint-to instruction, preceded by a creation
/// instruction exactly when that account does not exist yet.
pub fn mint_instructions(
    payer: &Address,
    mint: &Address,
    amount: u64,
    destination_exists: bool,
    token_program: &Address,
) -> (r: Result<Vec<BuiltInstruction>, TokenError>)
    ensures
        match r {
            Ok(ixs) => {
                let destination = derived_token_account(payer@, mint@, token_program@);
                let credit = mint_to_model(token_program@, mint@, destination, payer@, amount);
                is_spl_token_program(token_program@) && (if destination_exists {
                    instruction_views(ixs@) == seq![credit]
                } else {
                    ixs@.len() == 2 && create_associated_account_instr(
                        ixs@[0]@,
                        payer@,
                        payer@,
                        mint@,
                        token_program@,
                    ) && ixs@[1]@ == credit
                })
            },
            Err(e) => !is_spl_token_program(token_program@) && e == TokenError::IncorrectProgram,
        },
{
    let destination = spl::derive_token_account(payer, mint, token_program);
    let credit = match spl::build_mint_to(token_program, mint, &destination, payer, amount) {
        Ok(ix) => ix,
        Err(e) => {
            return Err(e);
        },
    };
    let mut ixs: Vec<BuiltInstruction> = Vec::new();
    if !destination_exists {
        ixs.push(spl::build_create_associated_token_account(payer, payer, mint, token_program));
    }
    ixs.push(credit);
    proof {
        if destination_exists {
            assert(instruction_views(ixs@) =~= seq![credit@]);
        }
    }
    Ok(ixs)
}

/// The instructions that move `amount` base units of `mint` from the payer's
/// associated token account to the recipient's: one transfer-checked
/// instruction, preceded by a creation instruction for the recipient's
/// account exactly when it does not exist yet.
pub fn transfer_instructions(
    payer: &Address,
    recipient: &Address,
    mint: &Address,
    amount: u64,
    decimals: u8,
    recipient_account_exists: bool,
    token_program: &Address,
) -> (r: Result<Vec<BuiltInstruction>, TokenError>)
    ensures
        match r {
            Ok(ixs) => {
                let source = derived_token_account(payer@, mint@, token_program@);
                let destination = derived_token_account(recipient@, mint@, token_program@);
                let movement = transfer_checked_model(
                    token_program@,
                    source,
                    mint@,
                    destination,
                    payer@,
                    amount,
                    decimals,
                );
                is_spl_token_program(token_program@) && (if recipient_account_exists {
                    instruction_views(ixs@) == seq![movement]
                } else {
                    ixs@.len() == 2 && create_associated_account_instr(
                        ixs@[0]@,
                        payer@,
                        recipient@,
                        mint@,
                        token_program@,
                    ) && ixs@[1]@ == movement
                })
            },
            Err(e) => !is_spl_token_program(token_program@) && e == TokenError::IncorrectProgram,
        },
{
    let source = spl::derive_token_account(payer, mint, token_program);
    let destination = spl::derive_token_account(recipient, mint, token_program);
    let movement = match spl::build_transfer_checked(
        token_program,
        &source,
        mint,
        &destination,
        payer,
        amount,
        decimals,
    ) {
        Ok(ix) => ix,
        Err(e) => {
            return Err(e);
        },
    };
    let mut ixs: Vec<BuiltInstruction> = Vec::new();
    if !recipient_account_exists {
        ixs.push(spl::build_create_associated_token_account(payer, recipient, mint, token_program));
    }
    ixs.push(movement);
    proof {
        if recipient_account_exists {
            assert(instruction_views(ixs@) =~= seq![movement@]);
        }
    }
    Ok(ixs)
}

} // verus!
