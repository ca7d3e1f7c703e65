//! Record codecs: round trips, and the exact byte layouts cross-checked
//! against borsh's encoding of the same primitive values.

use ledger_programs::authorized_counter;
use ledger_programs::counter;
use ledger_programs::echo::{AuthorizedEcho, Echo};
use ledger_programs::errors::ProgError;
use ledger_programs::identity::Identity;
use ledger_programs::token::{AccountTag, Mint, TokenAccount};
use ledger_programs::tracker::Tracker;

fn id(b: u8) -> Identity {
    Identity::from_bytes(vec![b; 32])
}

#[test]
fn counter_layout_matches_borsh() {
    let c = authorized_counter::Counter { authority: id(2), count: 5 };
    let bytes = c.save();
    let expected = borsh::to_vec(&([2u8; 32], 5u64)).unwrap();
    assert_eq!(bytes, expected);
}

#[test]
fn counter_round_trip() {
    let mut buf = vec![7u8; 40];
    buf[32..40].copy_from_slice(&123u64.to_le_bytes());
    let c = authorized_counter::Counter::load(&buf).unwrap();
    assert_eq!(c.count, 123);
    assert_eq!(c.authority.bytes, vec![7u8; 32]);
    assert_eq!(c.save(), buf);
}

#[test]
fn counter_rejects_wrong_length() {
    let buf = vec![0u8; 39];
    assert_eq!(
        authorized_counter::Counter::load(&buf).unwrap_err(),
        ProgError::InvalidAccountData
    );
}

#[test]
fn plain_counter_layout_matches_borsh() {
    let c = counter::Counter { count: 99 };
    assert_eq!(c.save(), borsh::to_vec(&99u64).unwrap());
    let back = counter::Counter::load(&c.save()).unwrap();
    assert_eq!(back.count, 99);
}

#[test]
fn mint_layout_matches_borsh() {
    let m = Mint { tag: AccountTag::Mint, authority: id(9), supply: 1000 };
    let bytes = m.save();
    let expected = borsh::to_vec(&(1u8, [9u8; 32], 1000u64)).unwrap();
    assert_eq!(bytes, expected);
    assert_eq!(bytes.len(), 41);
}

#[test]
fn mint_round_trip_and_tag_check() {
    let m = Mint { tag: AccountTag::Mint, authority: id(9), supply: 7 };
    let bytes = m.save();
    let back = Mint::load(&bytes).unwrap();
    assert_eq!(back.supply, 7);
    assert_eq!(back.save(), bytes);

    // A token account's bytes must not load as a mint.
    let ta = TokenAccount { tag: AccountTag::TokenAccount, owner: id(1), mint: id(2), amount: 3 };
    let _ = ta.save();
    let wrong_tag = {
        let mut b = bytes.clone();
        b[0] = 2u8;
        b
    };
    assert_eq!(Mint::load(&wrong_tag).unwrap_err(), ProgError::InvalidAccountData);
    // But the unchecked reader parses it.
    assert!(Mint::load_unchecked(&wrong_tag).is_ok());
}

#[test]
fn mint_rejects_unknown_tag_byte() {
    let mut bytes = vec![0u8; 41];
    bytes[0] = 3u8;
    assert_eq!(Mint::load_unchecked(&bytes).unwrap_err(), ProgError::InvalidAccountData);
}

#[test]
fn token_account_layout_matches_borsh() {
    let ta = TokenAccount { tag: AccountTag::TokenAccount, owner: id(4), mint: id(5), amount: 42 };
    let bytes = ta.save();
    let expected = borsh::to_vec(&(2u8, [4u8; 32], [5u8; 32], 42u64)).unwrap();
    assert_eq!(bytes, expected);
    assert_eq!(bytes.len(), 73);
    let back = TokenAccount::load(&bytes).unwrap();
    assert_eq!(back.amount, 42);
    assert_eq!(back.save(), bytes);
}

#[test]
fn tracker_layout_matches_borsh() {
    let t = Tracker { bump: 254, auth_bump: 251, counter: id(6), count: 11 };
    let bytes = t.save();
    let expected = borsh::to_vec(&(254u8, 251u8, [6u8; 32], 11u64)).unwrap();
    assert_eq!(bytes, expected);
    assert_eq!(bytes.len(), 42);
    let back = Tracker::load(&bytes).unwrap();
    assert_eq!(back.bump, 254);
    assert_eq!(back.auth_bump, 251);
    assert_eq!(back.count, 11);
    assert_eq!(back.save(), bytes);
}

#[test]
fn echo_layout_matches_borsh() {
    let e = Echo { data: vec![1, 2, 3, 4, 5] };
    let bytes = e.save();
    let expected = borsh::to_vec(&vec![1u8, 2, 3, 4, 5]).unwrap();
    assert_eq!(bytes, expected);
    let back = Echo::load(&bytes).unwrap();
    assert_eq!(back.data, vec![1, 2, 3, 4, 5]);
    assert_eq!(back.save(), bytes);
}

#[test]
fn echo_rejects_wrong_length_prefix() {
    let mut bytes = borsh::to_vec(&vec![1u8, 2, 3]).unwrap();
    bytes[0] = 9; // prefix now overstates the payload
    assert_eq!(Echo::load(&bytes).unwrap_err(), ProgError::InvalidAccountData);
}

#[test]
fn authorized_echo_layout_matches_borsh() {
    let e = AuthorizedEcho { authority: id(8), data: vec![10, 20] };
    let bytes = e.save();
    let expected = borsh::to_vec(&([8u8; 32], vec![10u8, 20])).unwrap();
    assert_eq!(bytes, expected);
    let back = AuthorizedEcho::load(&bytes).unwrap();
    assert_eq!(back.authority.bytes, vec![8u8; 32]);
    assert_eq!(back.data, vec![10, 20]);
    assert_eq!(back.save(), bytes);
}
