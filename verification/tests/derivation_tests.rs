//! Address derivation: determinism, agreement with the host library's own
//! search, and sensitivity to the seed material.

use ledger_programs::derivation::{derive_address, reproduce};
use ledger_programs::identity::Identity;
use solana_program::pubkey::Pubkey;

fn id(b: u8) -> Identity {
    Identity::from_bytes(vec![b; 32])
}

#[test]
fn derive_matches_host_search() {
    let seeds: Vec<Vec<u8>> = vec![b"seed1".to_vec(), vec![7u8; 32]];
    let program = id(3);
    let (addr, bump) = derive_address(&seeds, &program).unwrap();

    let pid = Pubkey::new_from_array([3u8; 32]);
    let (expected, expected_bump) = Pubkey::find_program_address(&[b"seed1", &[7u8; 32]], &pid);
    assert_eq!(addr.bytes, expected.to_bytes().to_vec());
    assert_eq!(bump, expected_bump);
}

#[test]
fn reproduce_is_deterministic() {
    let seeds: Vec<Vec<u8>> = vec![b"alpha".to_vec()];
    let program = id(5);
    let a = reproduce(&seeds, 250, &program);
    let b = reproduce(&seeds, 250, &program);
    match (a, b) {
        (Some(x), Some(y)) => assert_eq!(x.bytes, y.bytes),
        (None, None) => {},
        _ => panic!("two identical reproductions disagreed"),
    }
}

#[test]
fn reproduce_recovers_derived_address() {
    let seeds: Vec<Vec<u8>> = vec![vec![1u8; 32], vec![2u8; 32]];
    let program = id(4);
    let (addr, bump) = derive_address(&seeds, &program).unwrap();
    let again = reproduce(&seeds, bump, &program).unwrap();
    assert_eq!(addr.bytes, again.bytes);
}

#[test]
fn changing_a_seed_changes_the_address() {
    let program = id(4);
    let seeds_a: Vec<Vec<u8>> = vec![vec![1u8; 32]];
    let seeds_b: Vec<Vec<u8>> = vec![vec![2u8; 32]];
    let (addr_a, _) = derive_address(&seeds_a, &program).unwrap();
    let (addr_b, _) = derive_address(&seeds_b, &program).unwrap();
    assert_ne!(addr_a.bytes, addr_b.bytes);
}

#[test]
fn derived_address_is_not_a_seed_echo() {
    // The hash must actually transform its input: the derived address differs
    // from the seed bytes and from the program id.
    let program = id(3);
    let seeds: Vec<Vec<u8>> = vec![vec![9u8; 32]];
    let (addr, _) = derive_address(&seeds, &program).unwrap();
    assert_ne!(addr.bytes, vec![9u8; 32]);
    assert_ne!(addr.bytes, vec![3u8; 32]);
    assert_eq!(addr.bytes.len(), 32);
}

#[test]
fn overlong_seed_is_refused() {
    // A single seed over 32 bytes is refused by the hash for every bump.
    let program = id(6);
    let seeds: Vec<Vec<u8>> = vec![vec![0u8; 33]];
    assert!(derive_address(&seeds, &program).is_none());
    assert!(reproduce(&seeds, 255, &program).is_none());
}
