//! The plain counter program: one record holding one count, raised by one on
//! each increment. No authority is bound or checked — the authority-binding
//! variant lives beside it.

use vstd::prelude::*;
use vstd::bytes::*;
use crate::account::{views, clone_accounts, set_data, Account, AccountV};
use crate::codec::{push_u64_le, read_u64_le};
use crate::errors::ProgError;
use crate::identity::Identity;

verus! {

/// The mathematical value of a plain counter record.
pub ghost struct CounterV {
    pub count: u64,
}

/// A plain counter record: only its count.
#[derive(Debug)]
pub struct Counter {
    pub count: u64,
}

impl View for Counter {
    type V = CounterV;

    open spec fn view(&self) -> CounterV {
        CounterV { count: self.count }
    }
}

/// The fixed 8-byte layout: the count in little-endian.
pub open spec fn counter_bytes(c: CounterV) -> Seq<u8> {
    spec_u64_to_le_bytes(c.count)
}

/// Parses a plain counter record: exactly 8 bytes.
pub open spec fn parse_counter(data: Seq<u8>) -> Option<CounterV> {
    if data.len() == 8 {
        Some(CounterV { count: spec_u64_from_le_bytes(data) })
    } else {
        None
    }
}

/// Saving a parsed record reproduces the buffer bit for bit.
pub proof fn lemma_counter_round_trip(data: Seq<u8>)
    ensures
        (match parse_counter(data) {
            Some(c) => counter_bytes(c) == data,
            None => true,
        }),
{
    lemma_auto_spec_u64_to_from_le_bytes();
}

/// Parsing a saved record yields the record back.
pub proof fn lemma_counter_parse_saved(c: CounterV)
    ensures
        parse_counter(counter_bytes(c)) == Some(c),
{
    lemma_auto_spec_u64_to_from_le_bytes();
}

impl Counter {
    /// Reads a plain counter record from a raw buffer.
    pub fn load(data: &Vec<u8>) -> (r: Result<Counter, ProgError>)
        ensures
            (match r {
                Ok(c) => parse_counter(data@) == Some(c@),
                Err(e) => parse_counter(data@) is None && e == ProgError::InvalidAccountData,
            }),
    {
        if data.len() != 8 {
            return Err(ProgError::InvalidAccountData);
        }
        proof {
            assert(data@.subrange(0, 8) =~= data@);
        }
        Ok(Counter { count: read_u64_le(data, 0) })
    }

    /// Serializes the record into its exact 8-byte layout.
    pub fn save(&self) -> (r: Vec<u8>)
        ensures
            r@ == counter_bytes(self@),
    {
        let mut out: Vec<u8> = Vec::new();
        push_u64_le(&mut out, self.count);
        out
    }
}

/// The one instruction of the plain counter program.
#[derive(Clone, Copy, Debug, PartialEq, Eq, Structural)]
pub enum CounterInstruction {
    Increment,
}

/// Instruction bytes: a single tag byte, nothing after it.
pub open spec fn parse_counter_instruction(data: Seq<u8>) -> Option<CounterInstruction> {
    if data.len() == 1 && data[0] == 0u8 {
        Some(CounterInstruction::Increment)
    } else {
        None
    }
}

/// Decodes instruction bytes for the plain counter program.
pub fn decode_instruction(data: &Vec<u8>) -> (r: Result<CounterInstruction, ProgError>)
    ensures
        (match r {
            Ok(i) => parse_counter_instruction(data@) == Some(i),
            Err(e) => parse_counter_instruction(data@) is None && e
                == ProgError::InvalidInstructionData,
        }),
{
    if data.len() == 1 && data[0] == 0u8 {
        Ok(CounterInstruction::Increment)
    } else {
        Err(ProgError::InvalidInstructionData)
    }
}

/// The plain counter program's whole transition: decode, take the one
/// expected account, and raise its count by one, overflow checked.
pub open spec fn counter_step(accounts: Seq<AccountV>, data: Seq<u8>) -> Result<
    Seq<AccountV>,
    ProgError,
> {
    if parse_counter_instruction(data) is None {
        Err(ProgError::InvalidInstructionData)
    } else if accounts.len() < 1 {
        Err(ProgError::NotEnoughAccountKeys)
    } else {
        match parse_counter(accounts[0].data) {
            None => Err(ProgError::InvalidAccountData),
            Some(c) => if c.count == u64::MAX {
                Err(ProgError::Overflow)
            } else {
                Ok(
                    accounts.update(
                        0,
                        (AccountV {
                            data: counter_bytes(CounterV { count: (c.count + 1) as u64 }),
                            ..accounts[0]
                        }),
                    ),
                )
            },
        }
    }
}

/// The instruction processor of the plain counter program.
pub struct Processor {}

impl Processor {
    /// Runs one instruction against the supplied account list. On success the
    /// returned list is the input with the counter record rewritten; on error
    /// nothing is returned, so the caller keeps every record as it was.
    pub fn process_instruction(
        _program_id: &Identity,
        accounts: &Vec<Account>,
        instruction_data: &Vec<u8>,
    ) -> (r: Result<Vec<Account>, ProgError>)
        ensures
            (match r {
                Ok(out) => counter_step(views(accounts@), instruction_data@) == Ok::<_, ProgError>(
                    views(out@),
                ),
                Err(e) => counter_step(views(accounts@), instruction_data@) == Err::<
                    Seq<AccountV>,
                    _,
                >(e),
            }),
    {
        let _instruction = match decode_instruction(instruction_data) {
            Ok(i) => i,
            Err(e) => {
                return Err(e);
            },
        };
        if accounts.len() < 1 {
            return Err(ProgError::NotEnoughAccountKeys);
        }
        let mut counter = match Counter::load(&accounts[0].data) {
            Ok(c) => c,
            Err(e) => {
                return Err(e);
            },
        };
        if counter.count == u64::MAX {
            return Err(ProgError::Overflow);
        }
        counter.count = counter.count + 1;
        let new_data = counter.save();
        let mut out = clone_accounts(accounts);
        set_data(&mut out, 0, new_data);
        proof {
            assert(views(out@) =~= views(accounts@).update(
                0,
                (AccountV { data: counter_bytes(counter@), ..views(accounts@)[0] }),
            ));
        }
        Ok(out)
    }
}

} // verus!
