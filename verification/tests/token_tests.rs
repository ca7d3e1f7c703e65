//! The token program: supply conservation through mint, transfer and burn,
//! and the rejection paths.

use ledger_programs::account::Account;
use ledger_programs::errors::ProgError;
use ledger_programs::identity::Identity;
use ledger_programs::token::Processor;

fn id(b: u8) -> Identity {
    Identity::from_bytes(vec![b; 32])
}

fn mint_supply(data: &[u8]) -> u64 {
    u64::from_le_bytes(data[33..41].try_into().unwrap())
}

fn account_amount(data: &[u8]) -> u64 {
    u64::from_le_bytes(data[65..73].try_into().unwrap())
}

fn amount_ix(tag: u8, amount: u64) -> Vec<u8> {
    let mut v = vec![tag];
    v.extend_from_slice(&amount.to_le_bytes());
    v
}

const MINT_KEY: u8 = 10;
const AUTHORITY_KEY: u8 = 11;
const OWNER_KEY: u8 = 12;
const TA1_KEY: u8 = 13;
const TA2_KEY: u8 = 14;

/// Initializes a mint and two of its token accounts, returning their record
/// bytes.
fn setup() -> (Vec<u8>, Vec<u8>, Vec<u8>) {
    let program = id(9);
    // InitializeMint over (mint, authority).
    let accounts = vec![
        Account { key: id(MINT_KEY), is_signer: false, data: vec![0u8; 41] },
        Account { key: id(AUTHORITY_KEY), is_signer: true, data: vec![] },
    ];
    let out = Processor::process_instruction(&program, &accounts, &vec![0u8]).unwrap();
    let mint_data = out[0].data.clone();
    assert_eq!(mint_supply(&mint_data), 0);

    // InitializeTokenAccount over (account, mint, owner), twice.
    let mut tas: Vec<Vec<u8>> = Vec::new();
    for key in [TA1_KEY, TA2_KEY] {
        let accounts = vec![
            Account { key: id(key), is_signer: false, data: vec![0u8; 73] },
            Account { key: id(MINT_KEY), is_signer: false, data: mint_data.clone() },
            Account { key: id(OWNER_KEY), is_signer: false, data: vec![] },
        ];
        let out = Processor::process_instruction(&program, &accounts, &vec![1u8]).unwrap();
        assert_eq!(account_amount(&out[0].data), 0);
        tas.push(out[0].data.clone());
    }
    let ta2 = tas.pop().unwrap();
    let ta1 = tas.pop().unwrap();
    (mint_data, ta1, ta2)
}

#[test]
fn mint_transfer_burn_conserves_supply() {
    let program = id(9);
    let (mint_data, ta1, ta2) = setup();

    // Mint 100 to the first account: supply and balances stay in step.
    let accounts = vec![
        Account { key: id(TA1_KEY), is_signer: false, data: ta1 },
        Account { key: id(MINT_KEY), is_signer: false, data: mint_data },
        Account { key: id(AUTHORITY_KEY), is_signer: true, data: vec![] },
    ];
    let out = Processor::process_instruction(&program, &accounts, &amount_ix(2, 100)).unwrap();
    let (ta1, mint_data) = (out[0].data.clone(), out[1].data.clone());
    assert_eq!(account_amount(&ta1), 100);
    assert_eq!(mint_supply(&mint_data), 100);
    assert_eq!(account_amount(&ta1) + account_amount(&ta2), mint_supply(&mint_data));

    // Transfer 30 to the second account: the sum of balances is unchanged.
    let accounts = vec![
        Account { key: id(TA1_KEY), is_signer: false, data: ta1 },
        Account { key: id(TA2_KEY), is_signer: false, data: ta2 },
        Account { key: id(OWNER_KEY), is_signer: true, data: vec![] },
    ];
    let out = Processor::process_instruction(&program, &accounts, &amount_ix(4, 30)).unwrap();
    let (ta1, ta2) = (out[0].data.clone(), out[1].data.clone());
    assert_eq!(account_amount(&ta1), 70);
    assert_eq!(account_amount(&ta2), 30);
    assert_eq!(account_amount(&ta1) + account_amount(&ta2), mint_supply(&mint_data));

    // Burn 30 from the second account: supply falls with the balance.
    let accounts = vec![
        Account { key: id(TA2_KEY), is_signer: false, data: ta2 },
        Account { key: id(MINT_KEY), is_signer: false, data: mint_data },
        Account { key: id(OWNER_KEY), is_signer: true, data: vec![] },
    ];
    let out = Processor::process_instruction(&program, &accounts, &amount_ix(3, 30)).unwrap();
    let (ta2, mint_data) = (out[0].data.clone(), out[1].data.clone());
    assert_eq!(account_amount(&ta2), 0);
    assert_eq!(mint_supply(&mint_data), 70);
    assert_eq!(account_amount(&ta1) + account_amount(&ta2), mint_supply(&mint_data));
}

#[test]
fn transfer_between_different_mints_is_rejected() {
    let program = id(9);
    let (mint_data, ta1, _) = setup();

    // A second mint with its own token account.
    let accounts = vec![
        Account { key: id(20), is_signer: false, data: vec![0u8; 41] },
        Account { key: id(AUTHORITY_KEY), is_signer: true, data: vec![] },
    ];
    let out = Processor::process_instruction(&program, &accounts, &vec![0u8]).unwrap();
    let mint2 = out[0].data.clone();
    let accounts = vec![
        Account { key: id(21), is_signer: false, data: vec![0u8; 73] },
        Account { key: id(20), is_signer: false, data: mint2 },
        Account { key: id(OWNER_KEY), is_signer: false, data: vec![] },
    ];
    let out = Processor::process_instruction(&program, &accounts, &vec![1u8]).unwrap();
    let ta_other = out[0].data.clone();

    // Fund the first account.
    let accounts = vec![
        Account { key: id(TA1_KEY), is_signer: false, data: ta1 },
        Account { key: id(MINT_KEY), is_signer: false, data: mint_data },
        Account { key: id(AUTHORITY_KEY), is_signer: true, data: vec![] },
    ];
    let out = Processor::process_instruction(&program, &accounts, &amount_ix(2, 50)).unwrap();
    let ta1 = out[0].data.clone();

    let accounts = vec![
        Account { key: id(TA1_KEY), is_signer: false, data: ta1 },
        Account { key: id(21), is_signer: false, data: ta_other },
        Account { key: id(OWNER_KEY), is_signer: true, data: vec![] },
    ];
    let err = Processor::process_instruction(&program, &accounts, &amount_ix(4, 10)).unwrap_err();
    assert_eq!(err, ProgError::InvalidAccountData);
}

#[test]
fn burn_over_balance_is_rejected_and_changes_nothing() {
    let program = id(9);
    let (mint_data, ta1, _) = setup();

    // Fund with 40, then ask to burn 41.
    let accounts = vec![
        Account { key: id(TA1_KEY), is_signer: false, data: ta1 },
        Account { key: id(MINT_KEY), is_signer: false, data: mint_data },
        Account { key: id(AUTHORITY_KEY), is_signer: true, data: vec![] },
    ];
    let out = Processor::process_instruction(&program, &accounts, &amount_ix(2, 40)).unwrap();
    let (ta1, mint_data) = (out[0].data.clone(), out[1].data.clone());

    let accounts = vec![
        Account { key: id(TA1_KEY), is_signer: false, data: ta1.clone() },
        Account { key: id(MINT_KEY), is_signer: false, data: mint_data.clone() },
        Account { key: id(OWNER_KEY), is_signer: true, data: vec![] },
    ];
    let err = Processor::process_instruction(&program, &accounts, &amount_ix(3, 41)).unwrap_err();
    assert_eq!(err, ProgError::InvalidAccountData);
    // The error carried no new state: the records read back unchanged.
    assert_eq!(account_amount(&accounts[0].data), 40);
    assert_eq!(mint_supply(&accounts[1].data), 40);
}

#[test]
fn mint_requires_the_bound_authority() {
    let program = id(9);
    let (mint_data, ta1, _) = setup();
    // A different signer than the mint's bound authority is refused.
    let accounts = vec![
        Account { key: id(TA1_KEY), is_signer: false, data: ta1 },
        Account { key: id(MINT_KEY), is_signer: false, data: mint_data },
        Account { key: id(OWNER_KEY), is_signer: true, data: vec![] },
    ];
    let err = Processor::process_instruction(&program, &accounts, &amount_ix(2, 5)).unwrap_err();
    assert_eq!(err, ProgError::MissingRequiredSignature);
}

#[test]
fn transfer_from_foreign_owner_is_rejected() {
    let program = id(9);
    let (mint_data, ta1, ta2) = setup();
    let accounts = vec![
        Account { key: id(TA1_KEY), is_signer: false, data: ta1 },
        Account { key: id(MINT_KEY), is_signer: false, data: mint_data },
        Account { key: id(AUTHORITY_KEY), is_signer: true, data: vec![] },
    ];
    let out = Processor::process_instruction(&program, &accounts, &amount_ix(2, 10)).unwrap();
    let ta1 = out[0].data.clone();
    let accounts = vec![
        Account { key: id(TA1_KEY), is_signer: false, data: ta1 },
        Account { key: id(TA2_KEY), is_signer: false, data: ta2 },
        Account { key: id(30), is_signer: true, data: vec![] },
    ];
    let err = Processor::process_instruction(&program, &accounts, &amount_ix(4, 5)).unwrap_err();
    assert_eq!(err, ProgError::MissingRequiredSignature);
}

#[test]
fn mint_overflow_is_reported() {
    let program = id(9);
    let (mint_data, ta1, _) = setup();
    let accounts = vec![
        Account { key: id(TA1_KEY), is_signer: false, data: ta1 },
        Account { key: id(MINT_KEY), is_signer: false, data: mint_data },
        Account { key: id(AUTHORITY_KEY), is_signer: true, data: vec![] },
    ];
    let out = Processor::process_instruction(&program, &accounts, &amount_ix(2, u64::MAX)).unwrap();
    let (ta1, mint_data) = (out[0].data.clone(), out[1].data.clone());
    let accounts = vec![
        Account { key: id(TA1_KEY), is_signer: false, data: ta1 },
        Account { key: id(MINT_KEY), is_signer: false, data: mint_data },
        Account { key: id(AUTHORITY_KEY), is_signer: true, data: vec![] },
    ];
    let err = Processor::process_instruction(&program, &accounts, &amount_ix(2, 1)).unwrap_err();
    assert_eq!(err, ProgError::Overflow);
}

#[test]
fn self_transfer_is_rejected() {
    let program = id(9);
    let (_, ta1, _) = setup();
    let accounts = vec![
        Account { key: id(TA1_KEY), is_signer: false, data: ta1.clone() },
        Account { key: id(TA1_KEY), is_signer: false, data: ta1 },
        Account { key: id(OWNER_KEY), is_signer: true, data: vec![] },
    ];
    let err = Processor::process_instruction(&program, &accounts, &amount_ix(4, 0)).unwrap_err();
    assert_eq!(err, ProgError::InvalidArgument);
}

#[test]
fn token_instruction_decode_rejects_garbage() {
    let program = id(9);
    let accounts = vec![
        Account { key: id(TA1_KEY), is_signer: false, data: vec![0u8; 73] },
        Account { key: id(MINT_KEY), is_signer: false, data: vec![0u8; 41] },
        Account { key: id(OWNER_KEY), is_signer: true, data: vec![] },
    ];
    for bad in [vec![], vec![5u8], vec![2u8, 1, 2], vec![2u8; 10]] {
        let err = Processor::process_instruction(&program, &accounts, &bad).unwrap_err();
        assert_eq!(err, ProgError::InvalidInstructionData);
    }
}

#[test]
fn burn_beyond_supply_reports_underflow() {
    // Forged records: the account claims more than the mint ever issued.
    let program = id(9);
    let mut mint_data = vec![0u8; 41];
    mint_data[0] = 1; // mint tag
    mint_data[1..33].copy_from_slice(&[AUTHORITY_KEY; 32]);
    mint_data[33..41].copy_from_slice(&50u64.to_le_bytes());
    let mut ta = vec![0u8; 73];
    ta[0] = 2; // token-account tag
    ta[1..33].copy_from_slice(&[OWNER_KEY; 32]);
    ta[33..65].copy_from_slice(&[MINT_KEY; 32]);
    ta[65..73].copy_from_slice(&100u64.to_le_bytes());
    let accounts = vec![
        Account { key: id(TA1_KEY), is_signer: false, data: ta },
        Account { key: id(MINT_KEY), is_signer: false, data: mint_data },
        Account { key: id(OWNER_KEY), is_signer: true, data: vec![] },
    ];
    let err = Processor::process_instruction(&program, &accounts, &amount_ix(3, 80)).unwrap_err();
    assert_eq!(err, ProgError::Underflow);
}
