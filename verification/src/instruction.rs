use vstd::prelude::*;
use crate::address::{Address, system_program_id};

verus! {

/// One account referenced by an instruction, with its access flags.
#[derive(Clone, Debug)]
pub struct AccountRole {
    pub address: Address,
    pub is_signer: bool,
    pub is_writable: bool,
}

/// Mathematical model of an [`AccountRole`].
pub ghost struct RoleModel {
    pub address: Seq<u8>,
    pub is_signer: bool,
    pub is_writable: bool,
}

impl View for AccountRole {
    type V = RoleModel;

    open spec fn view(&self) -> RoleModel {
        RoleModel {
            address: self.address@,
            is_signer: self.is_signer,
            is_writable: self.is_writable,
        }
    }
}

/// A fully encoded program instruction: the program to invoke, the accounts
/// it touches, and its argument payload.
#[derive(Clone, Debug)]
pub struct BuiltInstruction {
    pub program_id: Address,
    pub accounts: Vec<AccountRole>,
    pub data: Vec<u8>,
}

/// Mathematical model of a [`BuiltInstruction`].
pub ghost struct InstructionModel {
    pub program_id: Seq<u8>,
    pub accounts: Seq<RoleModel>,
    pub data: Seq<u8>,
}

impl View for BuiltInstruction {
    type V = InstructionModel;

    open spec fn view(&self) -> InstructionModel {
        InstructionModel {
            program_id: self.program_id@,
            accounts: self.accounts@.map_values(|a: AccountRole| a@),
            data: self.data@,
        }
    }
}

/// The models of a sequence of built instructions, in order.
pub open spec fn instruction_views(s: Seq<BuiltInstruction>) -> Seq<InstructionModel> {
    s.map_values(|ix: BuiltInstruction| ix@)
}

pub open spec fn role(address: Seq<u8>, is_signer: bool, is_writable: bool) -> RoleModel {
    RoleModel { address, is_signer, is_writable }
}

/// The two bytes of a 16-bit value, least significant first.
pub open spec fn le2(v: u16) -> Seq<u8> {
    seq![(v & 0xff) as u8, ((v >> 8) & 0xff) as u8]
}

/// The eight bytes of a 64-bit value, least significant first.
pub open spec fn le8(v: u64) -> Seq<u8> {
    seq![
        (v & 0xff) as u8,
        ((v >> 8) & 0xff) as u8,
        ((v >> 16) & 0xff) as u8,
        ((v >> 24) & 0xff) as u8,
        ((v >> 32) & 0xff) as u8,
        ((v >> 40) & 0xff) as u8,
        ((v >> 48) & 0xff) as u8,
        ((v >> 56) & 0xff) as u8,
    ]
}

/// An optional address as the token program encodes it: a one-byte tag
/// followed by the address when present.
pub open spec fn coption_bytes(a: Option<Seq<u8>>) -> Seq<u8> {
    match a {
        Option::Some(k) => seq![1u8] + k,
        Option::None => seq![0u8],
    }
}

/// Payload of the system program's create-account instruction: a four-byte
/// operation code of zero, then lamports, space and the owning program.
pub open spec fn create_account_data(lamports: u64, space: u64, owner: Seq<u8>) -> Seq<u8> {
    seq![0u8, 0u8, 0u8, 0u8] + le8(lamports) + le8(space) + owner
}

/// Payload of the token program's initialize-transfer-fee-config instruction.
pub open spec fn initialize_transfer_fee_config_data(
    config_authority: Option<Seq<u8>>,
    withdraw_authority: Option<Seq<u8>>,
    basis_points: u16,
    maximum_fee: u64,
) -> Seq<u8> {
    seq![26u8, 0u8] + coption_bytes(config_authority) + coption_bytes(withdraw_authority)
        + le2(basis_points) + le8(maximum_fee)
}

/// Payload of the token program's initialize-mint instruction that needs no
/// rent sysvar account.
pub open spec fn initialize_mint2_data(
    decimals: u8,
    mint_authority: Seq<u8>,
    freeze_authority: Option<Seq<u8>>,
) -> Seq<u8> {
    seq![20u8, decimals] + mint_authority + coption_bytes(freeze_authority)
}

/// Payload of the token program's mint-to instruction.
pub open spec fn mint_to_data(amount: u64) -> Seq<u8> {
    seq![7u8] + le8(amount)
}

/// Payload of the token program's transfer-checked instruction.
pub open spec fn transfer_checked_data(amount: u64, decimals: u8) -> Seq<u8> {
    seq![12u8] + le8(amount) + seq![decimals]
}

/// Model of the system program's create-account instruction: funded by
/// `from`, creating `to` with the given balance, size and owning program.
pub open spec fn create_account_model(
    from: Seq<u8>,
    to: Seq<u8>,
    lamports: u64,
    space: u64,
    owner: Seq<u8>,
) -> InstructionModel {
    InstructionModel {
        program_id: system_program_id(),
        accounts: seq![role(from, true, true), role(to, true, true)],
        data: create_account_data(lamports, space, owner),
    }
}

/// Model of the initialize-transfer-fee-config instruction on `mint`.
pub open spec fn initialize_transfer_fee_config_model(
    token_program: Seq<u8>,
    mint: Seq<u8>,
    config_authority: Option<Seq<u8>>,
    withdraw_authority: Option<Seq<u8>>,
    basis_points: u16,
    maximum_fee: u64,
) -> InstructionModel {
    InstructionModel {
        program_id: token_program,
        accounts: seq![role(mint, false, true)],
        data: initialize_transfer_fee_config_data(
            config_authority,
            withdraw_authority,
            basis_points,
            maximum_fee,
        ),
    }
}

/// Model of the initialize-mint instruction on `mint`.
pub open spec fn initialize_mint2_model(
    token_program: Seq<u8>,
    mint: Seq<u8>,
    decimals: u8,
    mint_authority: Seq<u8>,
    freeze_authority: Option<Seq<u8>>,
) -> InstructionModel {
    InstructionModel {
        program_id: token_program,
        accounts: seq![role(mint, false, true)],
        data: initialize_mint2_data(decimals, mint_authority, freeze_authority),
    }
}

/// Model of the mint-to instruction crediting `amount` to `account`.
pub open spec fn mint_to_model(
    token_program: Seq<u8>,
    mint: Seq<u8>,
    account: Seq<u8>,
    owner: Seq<u8>,
    amount: u64,
) -> InstructionModel {
    InstructionModel {
        program_id: token_program,
        accounts: seq![
            role(mint, false, true),
            role(account, false, true),
            role(owner, true, false),
        ],
        data: mint_to_data(amount),
    }
}

/// Model of the transfer-checked instruction moving `amount` from `source`
/// to `destination`, validating `decimals` against `mint`.
pub open spec fn transfer_checked_model(
    token_program: Seq<u8>,
    source: Seq<u8>,
    mint: Seq<u8>,
    destination: Seq<u8>,
    owner: Seq<u8>,
    amount: u64,
    decimals: u8,
) -> InstructionModel {
    InstructionModel {
        program_id: token_program,
        accounts: seq![
            role(source, false, true),
            role(mint, false, false),
            role(destination, false, true),
            role(owner, true, false),
        ],
        data: transfer_checked_data(amount, decimals),
    }
}

} // verus!
