//! The authority-binding counter program. A counter record is unbound while
//! its count is zero; the first successful increment captures the claiming
//! signer as the record's authority, and every increment — including the
//! binding one — requires that authority's signature. Binding is irrevocable:
//! no instruction changes an already-bound authority.

use vstd::prelude::*;
use vstd::bytes::*;
use crate::account::{views, all_wf, clone_accounts, set_data, Account, AccountV};
use crate::codec::{push_bytes, push_u64_le, read_bytes, read_u64_le};
use crate::errors::ProgError;
use crate::identity::Identity;

verus! {

/// The mathematical value of a counter record.
pub ghost struct CounterV {
    pub authority: Seq<u8>,
    pub count: u64,
}

/// A counter record: the identity that controls it, and its count.
#[derive(Debug)]
pub struct Counter {
    pub authority: Identity,
    pub count: u64,
}

impl View for Counter {
    type V = CounterV;

    open spec fn view(&self) -> CounterV {
        CounterV { authority: self.authority@, count: self.count }
    }
}

/// The fixed 40-byte layout: the authority's 32 bytes, then the count in
/// little-endian.
pub open spec fn counter_bytes(c: CounterV) -> Seq<u8>
    recommends
        c.authority.len() == 32,
{
    c.authority + spec_u64_to_le_bytes(c.count)
}

/// Parses a counter record: exactly 40 bytes, no slack.
pub open spec fn parse_counter(data: Seq<u8>) -> Option<CounterV> {
    if data.len() == 40 {
        Some(
            CounterV {
                authority: data.subrange(0, 32),
                count: spec_u64_from_le_bytes(data.subrange(32, 40)),
            },
        )
    } else {
        None
    }
}

/// Saving a parsed counter record reproduces the buffer bit for bit.
pub proof fn lemma_counter_round_trip(data: Seq<u8>)
    ensures
        (match parse_counter(data) {
            Some(c) => counter_bytes(c) == data,
            None => true,
        }),
{
    lemma_auto_spec_u64_to_from_le_bytes();
    if parse_counter(data) is Some {
        let c = parse_counter(data).unwrap();
        assert(counter_bytes(c) =~= data);
    }
}

/// Parsing a saved counter record yields the record back.
pub proof fn lemma_counter_parse_saved(c: CounterV)
    requires
        c.authority.len() == 32,
    ensures
        parse_counter(counter_bytes(c)) == Some(c),
{
    lemma_auto_spec_u64_to_from_le_bytes();
    let data = counter_bytes(c);
    assert(data.subrange(0, 32) =~= c.authority);
    assert(data.subrange(32, 40) =~= spec_u64_to_le_bytes(c.count));
}

impl Counter {
    /// Reads a counter record from a raw buffer. A counter carries no tag, so
    /// the only check is the fixed length.
    pub fn load(data: &Vec<u8>) -> (r: Result<Counter, ProgError>)
        ensures
            (match r {
                Ok(c) => parse_counter(data@) == Some(c@) && c.authority.wf(),
                Err(e) => parse_counter(data@) is None && e == ProgError::InvalidAccountData,
            }),
    {
        if data.len() != 40 {
            return Err(ProgError::InvalidAccountData);
        }
        let authority = Identity::from_bytes(read_bytes(data, 0, 32));
        let count = read_u64_le(data, 32);
        Ok(Counter { authority, count })
    }

    /// Serializes the record into its exact 40-byte layout.
    pub fn save(&self) -> (r: Vec<u8>)
        requires
            self.authority.wf(),
        ensures
            r@ == counter_bytes(self@),
    {
        let mut out: Vec<u8> = Vec::new();
        push_bytes(&mut out, &self.authority.bytes);
        push_u64_le(&mut out, self.count);
        out
    }
}

/// The one instruction of the counter program.
#[derive(Clone, Copy, Debug, PartialEq, Eq, Structural)]
pub enum CounterInstruction {
    Increment,
}

/// Instruction bytes: a single tag byte, nothing after it.
pub open spec fn parse_counter_instruction(data: Seq<u8>) -> Option<CounterInstruction> {
    if data.len() == 1 && data[0] == 0u8 {
        Some(CounterInstruction::Increment)
    } else {
        None
    }
}

/// Decodes instruction bytes for the counter program.
pub fn decode_instruction(data: &Vec<u8>) -> (r: Result<CounterInstruction, ProgError>)
    ensures
        (match r {
            Ok(i) => parse_counter_instruction(data@) == Some(i),
            Err(e) => parse_counter_instruction(data@) is None && e
                == ProgError::InvalidInstructionData,
        }),
{
    if data.len() == 1 && data[0] == 0u8 {
        Ok(CounterInstruction::Increment)
    } else {
        Err(ProgError::InvalidInstructionData)
    }
}

/// Encodes an instruction, as a caller building a cross-contract invocation
/// must.
pub fn encode_instruction(i: &CounterInstruction) -> (r: Vec<u8>)
    ensures
        parse_counter_instruction(r@) == Some(*i),
{
    let mut out: Vec<u8> = Vec::new();
    match i {
        CounterInstruction::Increment => {
            out.push(0u8);
        },
    }
    out
}

/// What one increment does to a counter record, given the claiming identity
/// and whether it signed. An unbound record (count zero) first captures the
/// claimant as its authority; the claimant must have signed and must equal
/// the — possibly just bound — authority; the count then rises by one, with
/// overflow checked. A wrong authority is reported exactly like a missing
/// signature.
pub open spec fn increment_outcome(counter_data: Seq<u8>, authority: Seq<u8>, signed: bool) -> Result<
    Seq<u8>,
    ProgError,
> {
    if !signed {
        Err(ProgError::MissingRequiredSignature)
    } else {
        match parse_counter(counter_data) {
            None => Err(ProgError::InvalidAccountData),
            Some(c) => {
                let bound = if c.count == 0 {
                    authority
                } else {
                    c.authority
                };
                if bound != authority {
                    Err(ProgError::MissingRequiredSignature)
                } else if c.count == u64::MAX {
                    Err(ProgError::Overflow)
                } else {
                    Ok(counter_bytes(CounterV { authority: bound, count: (c.count + 1) as u64 }))
                }
            },
        }
    }
}

/// The counter program's whole transition: decode the instruction, take the
/// two expected accounts — the counter record, then the claiming authority —
/// and apply the increment to the counter record.
pub open spec fn counter_step(accounts: Seq<AccountV>, data: Seq<u8>) -> Result<
    Seq<AccountV>,
    ProgError,
> {
    if parse_counter_instruction(data) is None {
        Err(ProgError::InvalidInstructionData)
    } else if accounts.len() < 2 {
        Err(ProgError::NotEnoughAccountKeys)
    } else {
        match increment_outcome(accounts[0].data, accounts[1].key, accounts[1].is_signer) {
            Ok(d) => Ok(accounts.update(0, (AccountV { data: d, ..accounts[0] }))),
            Err(e) => Err(e),
        }
    }
}

/// First-use binding: an unbound counter's first successful increment
/// captures the signer as its authority and sets the count to one; an
/// increment of the result claimed by any other identity fails with
/// `MissingRequiredSignature` — and, an error carrying no new state, leaves
/// the count unchanged.
pub proof fn lemma_first_increment_binds(data: Seq<u8>, signer: Seq<u8>, other: Seq<u8>)
    requires
        parse_counter(data) is Some,
        parse_counter(data).unwrap().count == 0,
        signer.len() == 32,
        other != signer,
    ensures
        increment_outcome(data, signer, true) is Ok,
        parse_counter(increment_outcome(data, signer, true).unwrap()) == Some(
            (CounterV { authority: signer, count: 1u64 }),
        ),
        increment_outcome(increment_outcome(data, signer, true).unwrap(), other, true) == Err::<
            Seq<u8>,
            ProgError,
        >(ProgError::MissingRequiredSignature),
{
    lemma_counter_parse_saved(CounterV { authority: signer, count: 1u64 });
}

/// Builds the counter program's increment instruction for a cross-contract
/// invocation: the counter record writable, the authority as a read-only
/// signer, and the encoded instruction bytes.
pub fn increment(
    program_id: Identity,
    counter: Identity,
    authority: Identity,
    instruction: CounterInstruction,
) -> (r: Result<crate::cpi::Instruction, ProgError>)
    ensures
        (match r {
            Ok(ix) => ix.program_id@ == program_id@ && ix.accounts@.len() == 2
                && ix.accounts@[0]@ == (crate::cpi::AccountMetaV {
                pubkey: counter@,
                is_signer: false,
                is_writable: true,
            }) && ix.accounts@[1]@ == (crate::cpi::AccountMetaV {
                pubkey: authority@,
                is_signer: true,
                is_writable: false,
            }) && parse_counter_instruction(ix.data@) == Some(instruction),
            Err(_) => false,
        }),
{
    let data = encode_instruction(&instruction);
    let mut accounts: Vec<crate::cpi::AccountMeta> = Vec::new();
    accounts.push(
        crate::cpi::AccountMeta { pubkey: counter, is_signer: false, is_writable: true },
    );
    accounts.push(
        crate::cpi::AccountMeta { pubkey: authority, is_signer: true, is_writable: false },
    );
    Ok(crate::cpi::Instruction { program_id, accounts, data })
}

/// The instruction processor of the counter program.
pub struct Processor {}

impl Processor {
    /// Runs one instruction against the supplied account list. On success the
    /// returned list is the input with the counter record rewritten; on error
    /// nothing is returned, so the caller keeps every record as it was.
    pub fn process_instruction(
        _program_id: &Identity,
        accounts: &Vec<Account>,
        instruction_data: &Vec<u8>,
    ) -> (r: Result<Vec<Account>, ProgError>)
        requires
            all_wf(accounts@),
        ensures
            (match r {
                Ok(out) => counter_step(views(accounts@), instruction_data@) == Ok::<_, ProgError>(
                    views(out@),
                ),
                Err(e) => counter_step(views(accounts@), instruction_data@) == Err::<
                    Seq<AccountV>,
                    _,
                >(e),
            }),
    {
        let _instruction = match decode_instruction(instruction_data) {
            Ok(i) => i,
            Err(e) => {
                return Err(e);
            },
        };
        if accounts.len() < 2 {
            return Err(ProgError::NotEnoughAccountKeys);
        }
        if !accounts[1].is_signer {
            return Err(ProgError::MissingRequiredSignature);
        }
        let mut counter = match Counter::load(&accounts[0].data) {
            Ok(c) => c,
            Err(e) => {
                return Err(e);
            },
        };
        if counter.count == 0 {
            counter.authority = accounts[1].key.clone();
        }
        if !counter.authority.same_as(&accounts[1].key) {
            return Err(ProgError::MissingRequiredSignature);
        }
        if counter.count == u64::MAX {
            return Err(ProgError::Overflow);
        }
        counter.count = counter.count + 1;
        let new_data = counter.save();
        let mut out = clone_accounts(accounts);
        set_data(&mut out, 0, new_data);
        proof {
            assert(views(out@) =~= views(accounts@).update(
                0,
                (AccountV {
                    data: counter_bytes(counter@),
                    ..views(accounts@)[0]
                }),
            ));
        }
        Ok(out)
    }
}

} // verus!
