//! The tracker program end to end: initialization at a derived address, the
//! signed cross-contract invocation into the counter program, and the
//! re-derivation checks on replay.

use ledger_programs::account::Account;
use ledger_programs::derivation::derive_address;
use ledger_programs::errors::ProgError;
use ledger_programs::identity::Identity;
use ledger_programs::tracker::{Processor, Tracker};

fn id(b: u8) -> Identity {
    Identity::from_bytes(vec![b; 32])
}

fn counter_count(data: &[u8]) -> u64 {
    u64::from_le_bytes(data[32..40].try_into().unwrap())
}

/// Derives both addresses and runs Initialize, returning the account list the
/// increment needs plus the tracker record's bytes.
fn initialized() -> (Identity, Vec<u8>, Identity, Identity, Identity, Identity) {
    let program = id(9);
    let user = id(1);
    let counter_key = id(2);

    let auth_seeds: Vec<Vec<u8>> = vec![counter_key.bytes.clone()];
    let (authority, _) = derive_address(&auth_seeds, &program).unwrap();
    let tracker_seeds: Vec<Vec<u8>> = vec![user.bytes.clone(), counter_key.bytes.clone()];
    let (tracker_key, _) = derive_address(&tracker_seeds, &program).unwrap();

    let accounts = vec![
        Account { key: tracker_key.clone(), is_signer: false, data: vec![0u8; 42] },
        Account { key: user.clone(), is_signer: true, data: vec![] },
        Account { key: authority.clone(), is_signer: false, data: vec![] },
        Account { key: counter_key.clone(), is_signer: false, data: vec![] },
        Account { key: Identity::zeroed(), is_signer: false, data: vec![] },
    ];
    let out = Processor::process_instruction(&program, &accounts, &vec![0u8]).unwrap();
    let tracker_data = out[0].data.clone();
    (program, tracker_data, tracker_key, user, counter_key, authority)
}

#[test]
fn initialize_stores_reproducible_bumps_and_zero_count() {
    let (_, tracker_data, _, _, counter_key, _) = initialized();
    let t = Tracker::load(&tracker_data).unwrap();
    assert_eq!(t.count, 0);
    assert_eq!(t.counter.bytes, counter_key.bytes);
    // The stored bumps are exactly what the search found; Increment below
    // re-derives from them.
}

#[test]
fn initialize_rejects_a_wrong_tracker_address() {
    let program = id(9);
    let user = id(1);
    let counter_key = id(2);
    let auth_seeds: Vec<Vec<u8>> = vec![counter_key.bytes.clone()];
    let (authority, _) = derive_address(&auth_seeds, &program).unwrap();
    let accounts = vec![
        Account { key: id(40), is_signer: false, data: vec![0u8; 42] },
        Account { key: user, is_signer: true, data: vec![] },
        Account { key: authority, is_signer: false, data: vec![] },
        Account { key: counter_key, is_signer: false, data: vec![] },
        Account { key: Identity::zeroed(), is_signer: false, data: vec![] },
    ];
    let err = Processor::process_instruction(&program, &accounts, &vec![0u8]).unwrap_err();
    assert_eq!(err, ProgError::InvalidArgument);
}

#[test]
fn initialize_rejects_a_wrong_allocator_identity() {
    let (program, _, tracker_key, user, counter_key, authority) = initialized();
    let accounts = vec![
        Account { key: tracker_key, is_signer: false, data: vec![0u8; 42] },
        Account { key: user, is_signer: true, data: vec![] },
        Account { key: authority, is_signer: false, data: vec![] },
        Account { key: counter_key, is_signer: false, data: vec![] },
        Account { key: id(50), is_signer: false, data: vec![] },
    ];
    let err = Processor::process_instruction(&program, &accounts, &vec![0u8]).unwrap_err();
    assert_eq!(err, ProgError::InvalidArgument);
}

#[test]
fn increment_drives_counter_through_derived_signer_and_mirrors_it() {
    let (program, tracker_data, tracker_key, user, counter_key, authority) = initialized();
    let counter_program = id(3);
    let accounts = vec![
        Account { key: tracker_key, is_signer: false, data: tracker_data },
        Account { key: user, is_signer: true, data: vec![] },
        Account { key: counter_program, is_signer: false, data: vec![] },
        Account { key: counter_key, is_signer: false, data: vec![0u8; 40] },
        // The derived authority cannot sign externally: its flag is false,
        // and only the seed proof makes it a signer for the nested call.
        Account { key: authority.clone(), is_signer: false, data: vec![] },
    ];
    let out = Processor::process_instruction(&program, &accounts, &vec![1u8]).unwrap();

    // The nested counter increment ran with the derived authority as signer:
    // the counter is bound to the derived address and its count is one.
    assert_eq!(&out[3].data[0..32], &authority.bytes[..]);
    assert_eq!(counter_count(&out[3].data), 1);
    // The tracker mirrored it.
    let t = Tracker::load(&out[0].data).unwrap();
    assert_eq!(t.count, 1);
}

#[test]
fn increment_with_a_corrupted_bump_is_rejected() {
    let (program, tracker_data, tracker_key, user, counter_key, authority) = initialized();
    let counter_program = id(3);

    // Flip the tracker's own bump in storage and replay.
    let mut bad = tracker_data.clone();
    bad[0] = bad[0].wrapping_add(1);
    let accounts = vec![
        Account { key: tracker_key.clone(), is_signer: false, data: bad },
        Account { key: user.clone(), is_signer: true, data: vec![] },
        Account { key: counter_program.clone(), is_signer: false, data: vec![] },
        Account { key: counter_key.clone(), is_signer: false, data: vec![0u8; 40] },
        Account { key: authority.clone(), is_signer: false, data: vec![] },
    ];
    let err = Processor::process_instruction(&program, &accounts, &vec![1u8]).unwrap_err();
    assert_eq!(err, ProgError::InvalidArgument);

    // Flip the authority bump instead.
    let mut bad = tracker_data.clone();
    bad[1] = bad[1].wrapping_add(1);
    let accounts = vec![
        Account { key: tracker_key, is_signer: false, data: bad },
        Account { key: user, is_signer: true, data: vec![] },
        Account { key: counter_program, is_signer: false, data: vec![] },
        Account { key: counter_key, is_signer: false, data: vec![0u8; 40] },
        Account { key: authority, is_signer: false, data: vec![] },
    ];
    let err = Processor::process_instruction(&program, &accounts, &vec![1u8]).unwrap_err();
    assert_eq!(err, ProgError::InvalidArgument);
}

#[test]
fn increment_rejects_a_foreign_authority_account() {
    let (program, tracker_data, tracker_key, user, counter_key, _) = initialized();
    let accounts = vec![
        Account { key: tracker_key, is_signer: false, data: tracker_data },
        Account { key: user, is_signer: true, data: vec![] },
        Account { key: id(3), is_signer: false, data: vec![] },
        Account { key: counter_key, is_signer: false, data: vec![0u8; 40] },
        Account { key: id(60), is_signer: true, data: vec![] },
    ];
    let err = Processor::process_instruction(&program, &accounts, &vec![1u8]).unwrap_err();
    assert_eq!(err, ProgError::InvalidArgument);
}

#[test]
fn tracker_instruction_decode_rejects_garbage() {
    let (program, tracker_data, tracker_key, user, counter_key, authority) = initialized();
    let accounts = vec![
        Account { key: tracker_key, is_signer: false, data: tracker_data },
        Account { key: user, is_signer: true, data: vec![] },
        Account { key: id(3), is_signer: false, data: vec![] },
        Account { key: counter_key, is_signer: false, data: vec![0u8; 40] },
        Account { key: authority, is_signer: false, data: vec![] },
    ];
    for bad in [vec![], vec![2u8], vec![0u8, 0]] {
        let err = Processor::process_instruction(&program, &accounts, &bad).unwrap_err();
        assert_eq!(err, ProgError::InvalidInstructionData);
    }
}
