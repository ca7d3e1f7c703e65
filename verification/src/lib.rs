//! Account-oriented ledger programs: small state machines whose persistent
//! state is a set of externally addressed, fixed-layout binary records,
//! mutated only by authorized instructions.
//!
//! The crate covers the record codecs and tag discipline, first-use authority
//! binding, deterministic address derivation (with the search for a
//! disambiguating bump), and the cross-contract invocation protocol by which
//! one program acts through a derived signer that both sides re-validate.

pub mod account;
pub mod authorized_counter;
pub mod codec;
pub mod counter;
pub mod cpi;
pub mod derivation;
pub mod echo;
pub mod errors;
pub mod identity;
pub mod token;
pub mod tracker;
