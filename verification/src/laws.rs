//! Laws of the handlers, stated over the transition functions that the
//! handlers' contracts are written with. Together with those contracts
//! (a failing handler leaves the account list untouched, a succeeding
//! one makes it the transition's result), each law carries over to the
//! executable code.

use vstd::prelude::*;

use crate::accounts::AccountView;
use crate::codec::{
    decode_campaign_spec, decode_withdraw_spec, lemma_codec_roundtrip, lemma_decode_wf,
    CampaignView,
};
use crate::processor::{
    create_campaign_spec, donate_spec, withdraw_spec, LedgerError,
};

verus! {

/// A signed creator, a contract-owned target with a rent-covering
/// balance, and a template whose admin is the creator always succeed,
/// and the stored record decodes with the creator as admin and the
/// donation counter at zero — whatever counter the template supplied.
pub proof fn lemma_create_stores_fresh_record(
    program_id: Seq<u8>,
    accounts: Seq<AccountView>,
    payload: Seq<u8>,
    rent_exemption: u64,
)
    requires
        accounts.len() >= 2,
        accounts[1].is_signer,
        accounts[0].owner == program_id,
        decode_campaign_spec(payload) is Some,
        decode_campaign_spec(payload).unwrap().admin == accounts[1].key,
        accounts[0].lamports >= rent_exemption,
    ensures
        create_campaign_spec(program_id, accounts, payload, rent_exemption) is Ok,
        ({
            let template = decode_campaign_spec(payload).unwrap();
            let post = create_campaign_spec(program_id, accounts, payload, rent_exemption).unwrap();
            let stored = decode_campaign_spec(post[0].data);
            &&& stored == Some(CampaignView { amount_donated: 0, ..template })
            &&& stored.unwrap().admin == accounts[1].key
            &&& stored.unwrap().amount_donated == 0
        }),
{
    let template = decode_campaign_spec(payload).unwrap();
    lemma_decode_wf(payload);
    lemma_codec_roundtrip(CampaignView { amount_donated: 0, ..template });
}

/// A creation attempt whose creator did not sign fails with an
/// authorization error; by the handler's contract no account — in
/// particular no stored byte buffer — is mutated.
pub proof fn lemma_create_requires_signer(
    program_id: Seq<u8>,
    accounts: Seq<AccountView>,
    payload: Seq<u8>,
    rent_exemption: u64,
)
    requires
        accounts.len() >= 2,
        !accounts[1].is_signer,
    ensures
        create_campaign_spec(program_id, accounts, payload, rent_exemption) == Err::<
            Seq<AccountView>,
            LedgerError,
        >(LedgerError::IncorrectProgramId),
{
}

/// A creation attempt whose template names an admin other than the
/// creator fails with `InvalidInstructionData` and mutates nothing.
pub proof fn lemma_create_rejects_foreign_admin(
    program_id: Seq<u8>,
    accounts: Seq<AccountView>,
    payload: Seq<u8>,
    rent_exemption: u64,
)
    requires
        accounts.len() >= 2,
        accounts[1].is_signer,
        accounts[0].owner == program_id,
        decode_campaign_spec(payload) is Some,
        decode_campaign_spec(payload).unwrap().admin != accounts[1].key,
    ensures
        create_campaign_spec(program_id, accounts, payload, rent_exemption) == Err::<
            Seq<AccountView>,
            LedgerError,
        >(LedgerError::InvalidInstructionData),
{
}

/// A withdrawal claimed by an identity other than the stored admin fails
/// with `InvalidAccountData`; by the handler's contract both balances
/// stay as they were.
pub proof fn lemma_withdraw_rejects_non_admin(
    program_id: Seq<u8>,
    accounts: Seq<AccountView>,
    payload: Seq<u8>,
    rent_exemption: u64,
)
    requires
        accounts.len() >= 2,
        accounts[0].owner == program_id,
        accounts[1].is_signer,
        decode_campaign_spec(accounts[0].data) is Some,
        decode_campaign_spec(accounts[0].data).unwrap().admin != accounts[1].key,
    ensures
        withdraw_spec(program_id, accounts, payload, rent_exemption) == Err::<
            Seq<AccountView>,
            LedgerError,
        >(LedgerError::InvalidAccountData),
{
}

/// Asking for more than the balance above the rent-exemption minimum
/// fails with `InsufficientFunds`; asking for exactly that much succeeds
/// and leaves the campaign account at exactly the minimum, with the
/// whole amount credited to the admin account.
pub proof fn lemma_withdraw_drains_to_rent_floor(
    program_id: Seq<u8>,
    accounts: Seq<AccountView>,
    payload: Seq<u8>,
    rent_exemption: u64,
)
    requires
        accounts.len() >= 2,
        accounts[0].owner == program_id,
        accounts[1].is_signer,
        decode_campaign_spec(accounts[0].data) is Some,
        decode_campaign_spec(accounts[0].data).unwrap().admin == accounts[1].key,
        decode_withdraw_spec(payload) is Some,
        decode_withdraw_spec(payload).unwrap() == accounts[0].lamports - rent_exemption
            ==> accounts[1].lamports + decode_withdraw_spec(payload).unwrap() <= u64::MAX,
    ensures
        decode_withdraw_spec(payload).unwrap() > accounts[0].lamports - rent_exemption
            ==> withdraw_spec(program_id, accounts, payload, rent_exemption) == Err::<
            Seq<AccountView>,
            LedgerError,
        >(LedgerError::InsufficientFunds),
        decode_withdraw_spec(payload).unwrap() == accounts[0].lamports - rent_exemption ==> ({
            let post = withdraw_spec(program_id, accounts, payload, rent_exemption);
            &&& post is Ok
            &&& post.unwrap()[0].lamports == rent_exemption
            &&& post.unwrap()[1].lamports == accounts[1].lamports + decode_withdraw_spec(
                payload,
            ).unwrap()
            &&& post.unwrap()[0].data == accounts[0].data
        }),
{
}

/// Donating is idempotent in effect shape: two sweeps with independently
/// pre-funded balances raise the stored counter by exactly the first
/// balance, then exactly the second, and zero the pre-funded account
/// each time.
pub proof fn lemma_donate_sweeps_twice(
    program_id: Seq<u8>,
    accounts: Seq<AccountView>,
    second_funding: u64,
)
    requires
        accounts.len() >= 3,
        accounts[0].owner == program_id,
        accounts[1].owner == program_id,
        accounts[2].is_signer,
        decode_campaign_spec(accounts[0].data) is Some,
        decode_campaign_spec(accounts[0].data).unwrap().amount_donated + accounts[1].lamports
            + second_funding <= u64::MAX,
    ensures
        ({
            let counter = decode_campaign_spec(accounts[0].data).unwrap().amount_donated;
            let first = donate_spec(program_id, accounts);
            &&& first is Ok
            &&& first.unwrap()[1].lamports == 0
            &&& decode_campaign_spec(first.unwrap()[0].data) is Some
            &&& decode_campaign_spec(first.unwrap()[0].data).unwrap().amount_donated == counter
                + accounts[1].lamports
            &&& ({
                let refunded = first.unwrap().update(
                    1,
                    AccountView { lamports: second_funding, ..first.unwrap()[1] },
                );
                let second = donate_spec(program_id, refunded);
                &&& second is Ok
                &&& second.unwrap()[1].lamports == 0
                &&& decode_campaign_spec(second.unwrap()[0].data) is Some
                &&& decode_campaign_spec(second.unwrap()[0].data).unwrap().amount_donated
                    == counter + accounts[1].lamports + second_funding
            })
        }),
{
    let stored = decode_campaign_spec(accounts[0].data).unwrap();
    lemma_decode_wf(accounts[0].data);
    let once = CampaignView {
        amount_donated: (stored.amount_donated + accounts[1].lamports) as u64,
        ..stored
    };
    lemma_codec_roundtrip(once);
    let twice = CampaignView {
        amount_donated: (once.amount_donated + second_funding) as u64,
        ..once
    };
    lemma_codec_roundtrip(twice);
}

} // verus!
