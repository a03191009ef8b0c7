//! Payments as instructions to the system program: what the environment is
//! asked to carry out for a game or a prize.

use anchor_lang::solana_program::pubkey::Pubkey;
use anchor_lang::solana_program::system_instruction;
use vstd::prelude::*;
use crate::escrow::Transfer;
use crate::model::PlayReceipt;
use crate::principal::Principal;

verus! {

/// One account that an instruction names, and what it asks of it.
#[derive(Clone, Copy, Debug, PartialEq, Eq)]
pub struct AccountRole {
    pub key: Principal,
    pub is_signer: bool,
    pub is_writable: bool,
}

/// An instruction to move lamports, as plain data.
#[derive(Clone, Debug, PartialEq, Eq)]
pub struct TransferInstruction {
    pub program_id: Principal,
    pub accounts: Vec<AccountRole>,
    pub data: Vec<u8>,
}

/// The instruction data that asks the system program to transfer this many lamports.
pub uninterp spec fn transfer_data(lamports: u64) -> Seq<u8>;

/// The system program's identifier: 32 zero bytes.
pub open spec fn is_system_program(program_id: Principal) -> bool {
    forall|i: int| 0 <= i < 32 ==> program_id.bytes[i] == 0
}

/// The instruction asks the system program to move `lamports` from `from`,
/// who signs, to `to`.
pub open spec fn is_transfer(
    order: TransferInstruction,
    from: Principal,
    to: Principal,
    lamports: u64,
) -> bool {
    &&& is_system_program(order.program_id)
    &&& order.accounts@ == seq![
        AccountRole { key: from, is_signer: true, is_writable: true },
        AccountRole { key: to, is_signer: false, is_writable: true },
    ]
    &&& order.data@ == transfer_data(lamports)
}

/// `system_instruction::transfer` of solana_program, as anchor_lang hands it
/// on, with keys and instruction converted to plain data. Believed of it, not
/// proved: the instruction is for the system program; it names the sender as
/// a writable signer and then the recipient as writable; and its data is a
/// function of the amount alone.
#[verifier::external_body]
fn system_transfer(from: &Principal, to: &Principal, lamports: u64) -> (order: TransferInstruction)
    ensures
        is_system_program(order.program_id),
        order.accounts@ == seq![
            AccountRole { key: *from, is_signer: true, is_writable: true },
            AccountRole { key: *to, is_signer: false, is_writable: true },
        ],
        order.data@ == transfer_data(lamports),
{
    let from_key = Pubkey::new_from_array(from.bytes);
    let to_key = Pubkey::new_from_array(to.bytes);
    let instruction = system_instruction::transfer(&from_key, &to_key, lamports);
    let mut accounts: Vec<AccountRole> = Vec::new();
    for meta in instruction.accounts.iter() {
        let key = Principal { bytes: meta.pubkey.to_bytes() };
        accounts.push(AccountRole { key, is_signer: meta.is_signer, is_writable: meta.is_writable });
    }
    let program_id = Principal { bytes: instruction.program_id.to_bytes() };
    TransferInstruction { program_id, accounts, data: instruction.data }
}

/// The two payments of one game, in the order in which they are made: the
/// escrow's share from the player to the escrow, then the owner's share from
/// the player to the owner.
pub fn fee_transfers(receipt: &PlayReceipt, escrow: &Principal) -> (orders: Vec<TransferInstruction>)
    ensures
        orders@.len() == 2,
        is_transfer(orders@[0], receipt.player, *escrow, receipt.escrow_share),
        is_transfer(orders@[1], receipt.player, receipt.beneficiary, receipt.admin_share),
{
    let mut orders: Vec<TransferInstruction> = Vec::new();
    orders.push(system_transfer(&receipt.player, escrow, receipt.escrow_share));
    orders.push(system_transfer(&receipt.player, &receipt.beneficiary, receipt.admin_share));
    orders
}

/// The payment of a prize: from the escrow, which signs by its own
/// authority, to the winner.
pub fn prize_transfer(prize: &Transfer, escrow: &Principal) -> (order: TransferInstruction)
    ensures
        is_transfer(order, *escrow, prize.to, prize.lamports),
{
    system_transfer(escrow, &prize.to, prize.lamports)
}

} // verus!
