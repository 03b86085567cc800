//! Instruction dispatcher and the three operation handlers.
//!
//! Each handler is a single synchronous transition over the supplied
//! account list: it validates accounts fail-fast in a fixed order, then
//! mutates balances and the stored campaign record in place. The rent
//! oracle's answer for the first account's buffer length is supplied by
//! the caller as `rent_exemption`.

use vstd::prelude::*;

use crate::accounts::{lemma_views_update, views, Account, AccountView};
use crate::codec::{
    bytes_eq, decode_campaign, decode_campaign_spec, decode_withdraw, decode_withdraw_spec,
    encode_campaign, encode_campaign_spec, read_bytes, CampaignView,
};

verus! {

/// Typed failures surfaced by the handlers; every failure leaves the
/// account list untouched.
#[derive(Debug, PartialEq, Eq, Structural, Clone, Copy)]
pub enum LedgerError {
    /// Malformed opcode, malformed operation parameters, or an admin
    /// field that does not match the creator at creation.
    InvalidInstructionData,
    /// Ownership or signer authorization failure.
    IncorrectProgramId,
    /// The stored record is malformed or its admin does not match the
    /// claimed withdrawer.
    InvalidAccountData,
    /// Rent-exemption or withdrawal-amount shortfall.
    InsufficientFunds,
    /// The account list is shorter than the operation demands.
    NotEnoughAccountKeys,
}

/// Outcome of CreateCampaign: checks creator signature, contract
/// ownership of the target, admin identity, and rent exemption, in that
/// order; on success the target's buffer holds the record with the
/// donation counter forced to zero.
pub open spec fn create_campaign_spec(
    program_id: Seq<u8>,
    accounts: Seq<AccountView>,
    payload: Seq<u8>,
    rent_exemption: u64,
) -> Result<Seq<AccountView>, LedgerError> {
    if accounts.len() < 2 {
        Err(LedgerError::NotEnoughAccountKeys)
    } else if !accounts[1].is_signer {
        Err(LedgerError::IncorrectProgramId)
    } else if accounts[0].owner != program_id {
        Err(LedgerError::IncorrectProgramId)
    } else {
        match decode_campaign_spec(payload) {
            None => Err(LedgerError::InvalidInstructionData),
            Some(c) => if c.admin != accounts[1].key {
                Err(LedgerError::InvalidInstructionData)
            } else if accounts[0].lamports < rent_exemption {
                Err(LedgerError::InsufficientFunds)
            } else {
                Ok(
                    accounts.update(
                        0,
                        AccountView {
                            data: encode_campaign_spec(CampaignView { amount_donated: 0, ..c }),
                            ..accounts[0]
                        },
                    ),
                )
            },
        }
    }
}

/// Outcome of Withdraw: checks contract ownership, admin signature, the
/// stored admin identity, and that the requested amount leaves at least
/// the rent-exemption minimum behind; on success it moves the amount
/// from the campaign account to the admin account. The stored record
/// bytes are left unchanged.
pub open spec fn withdraw_spec(
    program_id: Seq<u8>,
    accounts: Seq<AccountView>,
    payload: Seq<u8>,
    rent_exemption: u64,
) -> Result<Seq<AccountView>, LedgerError> {
    if accounts.len() < 2 {
        Err(LedgerError::NotEnoughAccountKeys)
    } else if accounts[0].owner != program_id {
        Err(LedgerError::IncorrectProgramId)
    } else if !accounts[1].is_signer {
        Err(LedgerError::IncorrectProgramId)
    } else {
        match decode_campaign_spec(accounts[0].data) {
            None => Err(LedgerError::InvalidAccountData),
            Some(c) => if c.admin != accounts[1].key {
                Err(LedgerError::InvalidAccountData)
            } else {
                match decode_withdraw_spec(payload) {
                    None => Err(LedgerError::InvalidInstructionData),
                    Some(amount) => if accounts[0].lamports - rent_exemption < amount {
                        Err(LedgerError::InsufficientFunds)
                    } else {
                        Ok(
                            accounts.update(
                                0,
                                AccountView {
                                    lamports: (accounts[0].lamports - amount) as u64,
                                    ..accounts[0]
                                },
                            ).update(
                                1,
                                AccountView {
                                    lamports: (accounts[1].lamports + amount) as u64,
                                    ..accounts[1]
                                },
                            ),
                        )
                    },
                }
            },
        }
    }
}

/// Outcome of Donate: checks contract ownership of both the campaign and
/// the donator's pre-funded account and the donator's signature; on
/// success it sweeps the pre-funded account's entire balance into the
/// campaign account, adds it to the stored donation counter, and
/// re-encodes the record.
pub open spec fn donate_spec(program_id: Seq<u8>, accounts: Seq<AccountView>) -> Result<
    Seq<AccountView>,
    LedgerError,
> {
    if accounts.len() < 3 {
        Err(LedgerError::NotEnoughAccountKeys)
    } else if accounts[0].owner != program_id {
        Err(LedgerError::IncorrectProgramId)
    } else if accounts[1].owner != program_id {
        Err(LedgerError::IncorrectProgramId)
    } else if !accounts[2].is_signer {
        Err(LedgerError::IncorrectProgramId)
    } else {
        match decode_campaign_spec(accounts[0].data) {
            None => Err(LedgerError::InvalidAccountData),
            Some(c) => Ok(
                accounts.update(
                    0,
                    AccountView {
                        lamports: (accounts[0].lamports + accounts[1].lamports) as u64,
                        data: encode_campaign_spec(
                            CampaignView {
                                amount_donated: (c.amount_donated + accounts[1].lamports) as u64,
                                ..c
                            },
                        ),
                        ..accounts[0]
                    },
                ).update(1, AccountView { lamports: 0, ..accounts[1] }),
            ),
        }
    }
}

/// Outcome of one dispatched instruction: byte 0 selects the operation,
/// the remaining bytes are its parameters.
pub open spec fn process_spec(
    program_id: Seq<u8>,
    accounts: Seq<AccountView>,
    instruction_data: Seq<u8>,
    rent_exemption: u64,
) -> Result<Seq<AccountView>, LedgerError> {
    if instruction_data.len() == 0 {
        Err(LedgerError::InvalidInstructionData)
    } else if instruction_data[0] == 0 {
        create_campaign_spec(program_id, accounts, instruction_data.skip(1), rent_exemption)
    } else if instruction_data[0] == 1 {
        withdraw_spec(program_id, accounts, instruction_data.skip(1), rent_exemption)
    } else if instruction_data[0] == 2 {
        donate_spec(program_id, accounts)
    } else {
        Err(LedgerError::InvalidInstructionData)
    }
}

/// A successful withdrawal must not overflow the admin account's balance
/// counter; the machine's 64-bit balances force this bound.
pub open spec fn withdraw_fits(
    program_id: Seq<u8>,
    accounts: Seq<AccountView>,
    payload: Seq<u8>,
    rent_exemption: u64,
) -> bool {
    withdraw_spec(program_id, accounts, payload, rent_exemption) is Ok
        ==> accounts[1].lamports + decode_withdraw_spec(payload).unwrap() <= u64::MAX
}

/// A successful donation must not overflow the campaign balance nor the
/// stored donation counter; the machine's 64-bit counters force this.
pub open spec fn donate_fits(program_id: Seq<u8>, accounts: Seq<AccountView>) -> bool {
    donate_spec(program_id, accounts) is Ok ==> {
        &&& accounts[0].lamports + accounts[1].lamports <= u64::MAX
        &&& decode_campaign_spec(accounts[0].data).unwrap().amount_donated + accounts[1].lamports
            <= u64::MAX
    }
}

/// Combined machine-limit bound for one dispatched instruction.
pub open spec fn process_fits(
    program_id: Seq<u8>,
    accounts: Seq<AccountView>,
    instruction_data: Seq<u8>,
    rent_exemption: u64,
) -> bool {
    &&& (instruction_data.len() > 0 && instruction_data[0] == 1 ==> withdraw_fits(
        program_id,
        accounts,
        instruction_data.skip(1),
        rent_exemption,
    ))
    &&& (instruction_data.len() > 0 && instruction_data[0] == 2 ==> donate_fits(
        program_id,
        accounts,
    ))
}

/// CreateCampaign: stores the supplied record template in the first
/// account with the donation counter forced to zero, provided the
/// creator signed, the target is contract-owned, the template's admin is
/// the creator, and the target's balance covers rent exemption.
pub fn create_campaign(
    program_id: &Vec<u8>,
    accounts: &mut Vec<Account>,
    payload: &Vec<u8>,
    rent_exemption: u64,
) -> (r: Result<(), LedgerError>)
    ensures
        match create_campaign_spec(
            program_id@,
            views(old(accounts)@),
            payload@,
            rent_exemption,
        ) {
            Ok(post) => r == Ok::<(), LedgerError>(()) && views(final(accounts)@) == post,
            Err(e) => r == Err::<(), LedgerError>(e) && final(accounts)@ == old(accounts)@,
        },
{
    if accounts.len() < 2 {
        return Err(LedgerError::NotEnoughAccountKeys);
    }
    if !accounts[1].is_signer {
        return Err(LedgerError::IncorrectProgramId);
    }
    if !bytes_eq(&accounts[0].owner, program_id) {
        return Err(LedgerError::IncorrectProgramId);
    }
    let record = match decode_campaign(payload) {
        None => {
            return Err(LedgerError::InvalidInstructionData);
        },
        Some(c) => c,
    };
    if !bytes_eq(&record.admin, &accounts[1].key) {
        return Err(LedgerError::InvalidInstructionData);
    }
    if accounts[0].lamports < rent_exemption {
        return Err(LedgerError::InsufficientFunds);
    }
    let mut record = record;
    record.amount_donated = 0;
    let enc = encode_campaign(&record);
    let a0 = accounts.remove(0);
    let a0 = Account {
        key: a0.key,
        owner: a0.owner,
        is_signer: a0.is_signer,
        lamports: a0.lamports,
        data: enc,
    };
    accounts.insert(0, a0);
    proof {
        assert(accounts@ =~= old(accounts)@.update(0, accounts@[0]));
        lemma_views_update(old(accounts)@, 0, accounts@[0]);
        assert(views(accounts@) =~= create_campaign_spec(
            program_id@,
            views(old(accounts)@),
            payload@,
            rent_exemption,
        ).unwrap());
    }
    Ok(())
}

/// Withdraw: moves the requested amount from the campaign account to the
/// signing admin account, leaving at least the rent-exemption minimum
/// behind; the stored record bytes are untouched.
pub fn withdraw(
    program_id: &Vec<u8>,
    accounts: &mut Vec<Account>,
    payload: &Vec<u8>,
    rent_exemption: u64,
) -> (r: Result<(), LedgerError>)
    requires
        withdraw_fits(program_id@, views(old(accounts)@), payload@, rent_exemption),
    ensures
        match withdraw_spec(program_id@, views(old(accounts)@), payload@, rent_exemption) {
            Ok(post) => r == Ok::<(), LedgerError>(()) && views(final(accounts)@) == post,
            Err(e) => r == Err::<(), LedgerError>(e) && final(accounts)@ == old(accounts)@,
        },
{
    if accounts.len() < 2 {
        return Err(LedgerError::NotEnoughAccountKeys);
    }
    if !bytes_eq(&accounts[0].owner, program_id) {
        return Err(LedgerError::IncorrectProgramId);
    }
    if !accounts[1].is_signer {
        return Err(LedgerError::IncorrectProgramId);
    }
    let stored = match decode_campaign(&accounts[0].data) {
        None => {
            return Err(LedgerError::InvalidAccountData);
        },
        Some(c) => c,
    };
    if !bytes_eq(&stored.admin, &accounts[1].key) {
        return Err(LedgerError::InvalidAccountData);
    }
    let amount = match decode_withdraw(payload) {
        None => {
            return Err(LedgerError::InvalidInstructionData);
        },
        Some(a) => a,
    };
    if accounts[0].lamports < rent_exemption || accounts[0].lamports - rent_exemption < amount {
        return Err(LedgerError::InsufficientFunds);
    }
    let ghost pre = accounts@;
    let a0 = accounts.remove(0);
    let a0 = Account { lamports: a0.lamports - amount, ..a0 };
    accounts.insert(0, a0);
    proof {
        assert(accounts@ =~= pre.update(0, accounts@[0]));
    }
    let ghost mid = accounts@;
    let a1 = accounts.remove(1);
    let a1 = Account { lamports: a1.lamports + amount, ..a1 };
    accounts.insert(1, a1);
    proof {
        assert(accounts@ =~= mid.update(1, accounts@[1]));
        lemma_views_update(pre, 0, mid[0]);
        lemma_views_update(mid, 1, accounts@[1]);
        assert(views(accounts@) =~= withdraw_spec(
            program_id@,
            views(old(accounts)@),
            payload@,
            rent_exemption,
        ).unwrap());
    }
    Ok(())
}

/// Donate: sweeps the pre-funded account's whole balance into the
/// campaign account and adds it to the stored donation counter.
pub fn donate(program_id: &Vec<u8>, accounts: &mut Vec<Account>) -> (r: Result<(), LedgerError>)
    requires
        donate_fits(program_id@, views(old(accounts)@)),
    ensures
        match donate_spec(program_id@, views(old(accounts)@)) {
            Ok(post) => r == Ok::<(), LedgerError>(()) && views(final(accounts)@) == post,
            Err(e) => r == Err::<(), LedgerError>(e) && final(accounts)@ == old(accounts)@,
        },
{
    if accounts.len() < 3 {
        return Err(LedgerError::NotEnoughAccountKeys);
    }
    if !bytes_eq(&accounts[0].owner, program_id) {
        return Err(LedgerError::IncorrectProgramId);
    }
    if !bytes_eq(&accounts[1].owner, program_id) {
        return Err(LedgerError::IncorrectProgramId);
    }
    if !accounts[2].is_signer {
        return Err(LedgerError::IncorrectProgramId);
    }
    let stored = match decode_campaign(&accounts[0].data) {
        None => {
            return Err(LedgerError::InvalidAccountData);
        },
        Some(c) => c,
    };
    let swept = accounts[1].lamports;
    let mut record = stored;
    record.amount_donated = record.amount_donated + swept;
    let enc = encode_campaign(&record);
    let ghost pre = accounts@;
    let a0 = accounts.remove(0);
    let a0 = Account {
        key: a0.key,
        owner: a0.owner,
        is_signer: a0.is_signer,
        lamports: a0.lamports + swept,
        data: enc,
    };
    accounts.insert(0, a0);
    proof {
        assert(accounts@ =~= pre.update(0, accounts@[0]));
    }
    let ghost mid = accounts@;
    let a1 = accounts.remove(1);
    let a1 = Account { lamports: 0, ..a1 };
    accounts.insert(1, a1);
    proof {
        assert(accounts@ =~= mid.update(1, accounts@[1]));
        lemma_views_update(pre, 0, mid[0]);
        lemma_views_update(mid, 1, accounts@[1]);
        assert(views(accounts@) =~= donate_spec(program_id@, views(old(accounts)@)).unwrap());
    }
    Ok(())
}

/// Single entry point: dispatches on the leading opcode byte.
/// Opcode 0 creates a campaign, 1 withdraws, 2 donates; an empty payload
/// or any other opcode fails with `InvalidInstructionData` and no account
/// is touched. `rent_exemption` is the rent oracle's minimum balance for
/// the first account's buffer length.
pub fn process_instruction(
    program_id: &Vec<u8>,
    accounts: &mut Vec<Account>,
    instruction_data: &Vec<u8>,
    rent_exemption: u64,
) -> (r: Result<(), LedgerError>)
    requires
        process_fits(program_id@, views(old(accounts)@), instruction_data@, rent_exemption),
    ensures
        match process_spec(
            program_id@,
            views(old(accounts)@),
            instruction_data@,
            rent_exemption,
        ) {
            Ok(post) => r == Ok::<(), LedgerError>(()) && views(final(accounts)@) == post,
            Err(e) => r == Err::<(), LedgerError>(e) && final(accounts)@ == old(accounts)@,
        },
{
    if instruction_data.len() == 0 {
        return Err(LedgerError::InvalidInstructionData);
    }
    let op = instruction_data[0];
    if op == 0 || op == 1 {
        let payload = read_bytes(instruction_data, 1, instruction_data.len() - 1);
        proof {
            assert(payload@ =~= instruction_data@.skip(1));
        }
        if op == 0 {
            create_campaign(program_id, accounts, &payload, rent_exemption)
        } else {
            withdraw(program_id, accounts, &payload, rent_exemption)
        }
    } else if op == 2 {
        donate(program_id, accounts)
    } else {
        Err(LedgerError::InvalidInstructionData)
    }
}

/// Decides, without mutating anything, whether one dispatched instruction
/// is free of 64-bit overflow were it to succeed: exactly the bound that
/// `process_instruction` requires. Callers outside the verified boundary
/// test this before dispatching and abort as an unchecked addition would.
pub fn process_would_fit(
    program_id: &Vec<u8>,
    accounts: &Vec<Account>,
    instruction_data: &Vec<u8>,
    rent_exemption: u64,
) -> (r: bool)
    ensures
        r == process_fits(program_id@, views(accounts@), instruction_data@, rent_exemption),
{
    if instruction_data.len() == 0 {
        return true;
    }
    let op = instruction_data[0];
    if op == 1 {
        if accounts.len() < 2 {
            return true;
        }
        if !bytes_eq(&accounts[0].owner, program_id) {
            return true;
        }
        if !accounts[1].is_signer {
            return true;
        }
        let stored = match decode_campaign(&accounts[0].data) {
            None => {
                return true;
            },
            Some(c) => c,
        };
        if !bytes_eq(&stored.admin, &accounts[1].key) {
            return true;
        }
        let payload = read_bytes(instruction_data, 1, instruction_data.len() - 1);
        proof {
            assert(payload@ =~= instruction_data@.skip(1));
        }
        let amount = match decode_withdraw(&payload) {
            None => {
                return true;
            },
            Some(a) => a,
        };
        if accounts[0].lamports < rent_exemption || accounts[0].lamports - rent_exemption
            < amount {
            return true;
        }
        amount <= u64::MAX - accounts[1].lamports
    } else if op == 2 {
        if accounts.len() < 3 {
            return true;
        }
        if !bytes_eq(&accounts[0].owner, program_id) {
            return true;
        }
        if !bytes_eq(&accounts[1].owner, program_id) {
            return true;
        }
        if !accounts[2].is_signer {
            return true;
        }
        let stored = match decode_campaign(&accounts[0].data) {
            None => {
                return true;
            },
            Some(c) => c,
        };
        let swept = accounts[1].lamports;
        swept <= u64::MAX - accounts[0].lamports && swept <= u64::MAX - stored.amount_donated
    } else {
        true
    }
}

} // verus!
