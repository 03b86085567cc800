//! End-to-end flow through the dispatcher: create a campaign, donate into
//! it, then withdraw part of the proceeds.

use crowdfund::accounts::Account;
use crowdfund::codec::{decode_campaign, encode_campaign, Campaign};
use crowdfund::processor::{process_instruction, LedgerError};

const PROGRAM: u8 = 0xAA;
const ADMIN: u8 = 0x01;
const DONATOR: u8 = 0x0D;
const RENT: u64 = 1_000;

fn account(key: u8, owner: u8, is_signer: bool, lamports: u64, data: Vec<u8>) -> Account {
    Account {
        key: vec![key; 32],
        owner: vec![owner; 32],
        is_signer,
        lamports,
        data,
    }
}

#[test]
fn create_donate_withdraw_flow() {
    let pid = vec![PROGRAM; 32];
    let template = Campaign {
        admin: vec![ADMIN; 32],
        name: b"well".to_vec(),
        description: b"dig a well".to_vec(),
        image_link: b"https://example.invalid/well".to_vec(),
        amount_donated: 0,
    };

    // Create: the campaign account is pre-funded with rent + 100.
    let mut writing = account(0x10, PROGRAM, false, RENT + 100, Vec::new());
    let mut admin = account(ADMIN, 0, true, 0, Vec::new());
    let mut data = vec![0u8];
    data.extend_from_slice(&encode_campaign(&template));
    let mut accounts = vec![writing, admin];
    assert_eq!(process_instruction(&pid, &mut accounts, &data, RENT), Ok(()));
    writing = accounts.remove(0);
    admin = accounts.remove(0);

    // Donate: the donator pre-funded 50 into a contract-owned account.
    let prefunded = account(0x20, PROGRAM, false, 50, Vec::new());
    let donator = account(DONATOR, 0, true, 3, Vec::new());
    let mut accounts = vec![writing, prefunded, donator];
    assert_eq!(process_instruction(&pid, &mut accounts, &vec![2u8], RENT), Ok(()));
    assert_eq!(accounts[1].lamports, 0);
    writing = accounts.remove(0);

    // Withdraw 30 as the admin.
    let mut data = vec![1u8];
    data.extend_from_slice(&30u64.to_le_bytes());
    let mut accounts = vec![writing, admin];
    assert_eq!(process_instruction(&pid, &mut accounts, &data, RENT), Ok(()));

    let c = decode_campaign(&accounts[0].data).expect("stored record decodes");
    assert_eq!(c.amount_donated, 50);
    assert_eq!(accounts[0].lamports, RENT + 100 + 50 - 30);
    assert_eq!(accounts[1].lamports, 30);

    // The withdrawal never lowers the stored donation counter.
    assert_eq!(c.admin, vec![ADMIN; 32]);
    assert_eq!(c.name, b"well".to_vec());
}

#[test]
fn withdraw_by_stranger_then_by_admin() {
    let pid = vec![PROGRAM; 32];
    let record = Campaign {
        admin: vec![ADMIN; 32],
        name: b"well".to_vec(),
        description: Vec::new(),
        image_link: Vec::new(),
        amount_donated: 120,
    };
    let writing = account(0x10, PROGRAM, false, RENT + 120, encode_campaign(&record));
    let stranger = account(0x66, 0, true, 0, Vec::new());

    let mut data = vec![1u8];
    data.extend_from_slice(&120u64.to_le_bytes());

    let mut accounts = vec![writing, stranger];
    assert_eq!(
        process_instruction(&pid, &mut accounts, &data, RENT),
        Err(LedgerError::InvalidAccountData)
    );
    assert_eq!(accounts[0].lamports, RENT + 120);
    assert_eq!(accounts[1].lamports, 0);

    let writing = accounts.remove(0);
    let admin = account(ADMIN, 0, true, 0, Vec::new());
    let mut accounts = vec![writing, admin];
    assert_eq!(process_instruction(&pid, &mut accounts, &data, RENT), Ok(()));
    assert_eq!(accounts[0].lamports, RENT);
    assert_eq!(accounts[1].lamports, 120);
}
