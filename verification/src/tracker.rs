//! The tracker program. A tracker record lives at an address derived from
//! (user, counter) under this program, stores the bumps of that derivation
//! and of its derived authority, and mirrors a remote counter's count.
//! Increment re-validates both derivations from the stored bumps — never
//! trusting a previous instruction's result — and then invokes the counter
//! program with the derived authority as signer; only on success does the
//! local mirror rise. The mirror tracks invocations made through this
//! program, so a counter also incremented directly can drift from it.

use vstd::prelude::*;
use vstd::bytes::*;
use crate::account::{views, all_wf, clone_accounts, set_data, Account, AccountV};
use crate::authorized_counter::{increment, CounterInstruction};
use crate::codec::{clone_bytes, push_bytes, push_u64_le, read_bytes, read_u64_le};
use crate::cpi::{invoke_signed, invoke_signed_spec, meta_views, AccountMetaV};
use crate::derivation::{derive_address as search_derived, derived_address, derived_bump, reproduce, reproduce_spec, seed_views};
use crate::errors::ProgError;
use crate::identity::{zero_identity, Identity};

verus! {

/// The mathematical value of a tracker record.
pub ghost struct TrackerV {
    pub bump: u8,
    pub auth_bump: u8,
    pub counter: Seq<u8>,
    pub count: u64,
}

/// A tracker record: the bump of its own derived address, the bump of its
/// derived authority, the tracked counter's address, and the local mirror of
/// that counter's count.
#[derive(Debug)]
pub struct Tracker {
    pub bump: u8,
    pub auth_bump: u8,
    pub counter: Identity,
    pub count: u64,
}

impl View for Tracker {
    type V = TrackerV;

    open spec fn view(&self) -> TrackerV {
        TrackerV {
            bump: self.bump,
            auth_bump: self.auth_bump,
            counter: self.counter@,
            count: self.count,
        }
    }
}

/// The fixed 42-byte layout: the two bump bytes, the tracked counter's
/// address, the count in little-endian.
pub open spec fn tracker_bytes(t: TrackerV) -> Seq<u8>
    recommends
        t.counter.len() == 32,
{
    seq![t.bump, t.auth_bump] + t.counter + spec_u64_to_le_bytes(t.count)
}

/// Parses a tracker record: exactly 42 bytes, no slack.
pub open spec fn parse_tracker(data: Seq<u8>) -> Option<TrackerV> {
    if data.len() == 42 {
        Some(
            TrackerV {
                bump: data[0],
                auth_bump: data[1],
                counter: data.subrange(2, 34),
                count: spec_u64_from_le_bytes(data.subrange(34, 42)),
            },
        )
    } else {
        None
    }
}

/// Saving a parsed tracker record reproduces the buffer bit for bit.
pub proof fn lemma_tracker_round_trip(data: Seq<u8>)
    ensures
        (match parse_tracker(data) {
            Some(t) => tracker_bytes(t) == data,
            None => true,
        }),
{
    lemma_auto_spec_u64_to_from_le_bytes();
    if parse_tracker(data) is Some {
        let t = parse_tracker(data).unwrap();
        assert(tracker_bytes(t) =~= data);
    }
}

/// Parsing a saved tracker record yields the record back.
pub proof fn lemma_tracker_parse_saved(t: TrackerV)
    requires
        t.counter.len() == 32,
    ensures
        parse_tracker(tracker_bytes(t)) == Some(t),
{
    lemma_auto_spec_u64_to_from_le_bytes();
    let data = tracker_bytes(t);
    assert(data[0] == t.bump && data[1] == t.auth_bump);
    assert(data.subrange(2, 34) =~= t.counter);
    assert(data.subrange(34, 42) =~= spec_u64_to_le_bytes(t.count));
}

impl Tracker {
    /// Reads a tracker record from a raw buffer.
    pub fn load(data: &Vec<u8>) -> (r: Result<Tracker, ProgError>)
        ensures
            (match r {
                Ok(t) => parse_tracker(data@) == Some(t@) && t.counter.wf(),
                Err(e) => parse_tracker(data@) is None && e == ProgError::InvalidAccountData,
            }),
    {
        if data.len() != 42 {
            return Err(ProgError::InvalidAccountData);
        }
        let bump = data[0];
        let auth_bump = data[1];
        let counter = Identity::from_bytes(read_bytes(data, 2, 34));
        let count = read_u64_le(data, 34);
        Ok(Tracker { bump, auth_bump, counter, count })
    }

    /// Serializes the record into its exact 42-byte layout.
    pub fn save(&self) -> (r: Vec<u8>)
        requires
            self.counter.wf(),
        ensures
            r@ == tracker_bytes(self@),
    {
        let mut out: Vec<u8> = Vec::new();
        out.push(self.bump);
        out.push(self.auth_bump);
        push_bytes(&mut out, &self.counter.bytes);
        push_u64_le(&mut out, self.count);
        proof {
            assert(out@ =~= tracker_bytes(self@));
        }
        out
    }
}

/// The instructions of the tracker program.
#[derive(Clone, Copy, Debug, PartialEq, Eq, Structural)]
pub enum TrackerInstruction {
    Initialize,
    Increment,
}

/// Instruction bytes: a single tag byte, nothing after it.
pub open spec fn parse_tracker_instruction(data: Seq<u8>) -> Option<TrackerInstruction> {
    if data.len() == 1 && data[0] == 0u8 {
        Some(TrackerInstruction::Initialize)
    } else if data.len() == 1 && data[0] == 1u8 {
        Some(TrackerInstruction::Increment)
    } else {
        None
    }
}

/// Decodes instruction bytes for the tracker program.
pub fn decode_instruction(data: &Vec<u8>) -> (r: Result<TrackerInstruction, ProgError>)
    ensures
        (match r {
            Ok(i) => parse_tracker_instruction(data@) == Some(i),
            Err(e) => parse_tracker_instruction(data@) is None && e
                == ProgError::InvalidInstructionData,
        }),
{
    if data.len() == 1 && data[0] == 0u8 {
        Ok(TrackerInstruction::Initialize)
    } else if data.len() == 1 && data[0] == 1u8 {
        Ok(TrackerInstruction::Increment)
    } else {
        Err(ProgError::InvalidInstructionData)
    }
}

/// The seed list of a tracker's derived authority: the tracked counter's
/// address.
pub open spec fn authority_seeds(counter_key: Seq<u8>) -> Seq<Seq<u8>> {
    seq![counter_key]
}

/// The seed list of a tracker's own address: the user's address, then the
/// tracked counter's.
pub open spec fn tracker_seeds(user_key: Seq<u8>, counter_key: Seq<u8>) -> Seq<Seq<u8>> {
    seq![user_key, counter_key]
}

/// Initialize, over the account order (tracker record, user, authority,
/// counter, system program): derive both addresses, demand the allocator's
/// identity and both derived addresses match what was handed in, then stamp
/// the record with both bumps, the tracked counter, and a zero count. The
/// allocation itself is the external runtime's.
pub open spec fn initialize_step(accounts: Seq<AccountV>, program_id: Seq<u8>) -> Result<
    Seq<AccountV>,
    ProgError,
> {
    if accounts.len() < 5 {
        Err(ProgError::NotEnoughAccountKeys)
    } else {
        let ab = derived_bump(authority_seeds(accounts[3].key), program_id);
        let tb = derived_bump(tracker_seeds(accounts[1].key, accounts[3].key), program_id);
        if ab is None || tb is None {
            Err(ProgError::InvalidArgument)
        } else if accounts[4].key != zero_identity() {
            Err(ProgError::InvalidArgument)
        } else if derived_address(tracker_seeds(accounts[1].key, accounts[3].key), program_id)
            != Some(accounts[0].key) {
            Err(ProgError::InvalidArgument)
        } else if derived_address(authority_seeds(accounts[3].key), program_id) != Some(
            accounts[2].key,
        ) {
            Err(ProgError::InvalidArgument)
        } else {
            match parse_tracker(accounts[0].data) {
                None => Err(ProgError::InvalidAccountData),
                Some(_) => Ok(
                    accounts.update(
                        0,
                        (AccountV {
                            data: tracker_bytes(
                                TrackerV {
                                    bump: tb.unwrap(),
                                    auth_bump: ab.unwrap(),
                                    counter: accounts[3].key,
                                    count: 0u64,
                                },
                            ),
                            ..accounts[0]
                        }),
                    ),
                ),
            }
        }
    }
}

/// Increment, over the account order (tracker record, user, counter program,
/// counter record, authority): re-derive both addresses from the stored
/// bumps, demand they match the handed-in records, invoke the counter program
/// with the derived authority as signer, and only then raise the local
/// mirror, overflow checked.
pub open spec fn increment_step(accounts: Seq<AccountV>, program_id: Seq<u8>) -> Result<
    Seq<AccountV>,
    ProgError,
> {
    if accounts.len() < 5 {
        Err(ProgError::NotEnoughAccountKeys)
    } else {
        match parse_tracker(accounts[0].data) {
            None => Err(ProgError::InvalidAccountData),
            Some(t) => {
                match reproduce_spec(authority_seeds(accounts[3].key), t.auth_bump, program_id) {
                    None => Err(ProgError::InvalidArgument),
                    Some(auth_key) => if auth_key != accounts[4].key {
                        Err(ProgError::InvalidArgument)
                    } else {
                        match reproduce_spec(
                            tracker_seeds(accounts[1].key, accounts[3].key),
                            t.bump,
                            program_id,
                        ) {
                            None => Err(ProgError::InvalidArgument),
                            Some(tracker_key) => if tracker_key != accounts[0].key {
                                Err(ProgError::InvalidArgument)
                            } else {
                                let metas = seq![
                                    AccountMetaV {
                                        pubkey: accounts[3].key,
                                        is_signer: false,
                                        is_writable: true,
                                    },
                                    AccountMetaV {
                                        pubkey: accounts[4].key,
                                        is_signer: true,
                                        is_writable: false,
                                    },
                                ];
                                let infos = seq![accounts[3], accounts[4]];
                                match invoke_signed_spec(
                                    program_id,
                                    metas,
                                    seq![0u8],
                                    infos,
                                    authority_seeds(accounts[3].key),
                                    t.auth_bump,
                                ) {
                                    Err(e) => Err(e),
                                    Ok(outs) => if t.count == u64::MAX {
                                        Err(ProgError::Overflow)
                                    } else {
                                        Ok(
                                            accounts.update(
                                                3,
                                                (AccountV { data: outs[0].data, ..accounts[3] }),
                                            ).update(
                                                0,
                                                (AccountV {
                                                    data: tracker_bytes(
                                                        TrackerV {
                                                            count: (t.count + 1) as u64,
                                                            ..t
                                                        },
                                                    ),
                                                    ..accounts[0]
                                                }),
                                            ),
                                        )
                                    },
                                }
                            },
                        }
                    },
                }
            },
        }
    }
}

/// The tracker program's whole transition.
pub open spec fn tracker_step(accounts: Seq<AccountV>, data: Seq<u8>, program_id: Seq<u8>) -> Result<
    Seq<AccountV>,
    ProgError,
> {
    match parse_tracker_instruction(data) {
        None => Err(ProgError::InvalidInstructionData),
        Some(TrackerInstruction::Initialize) => initialize_step(accounts, program_id),
        Some(TrackerInstruction::Increment) => increment_step(accounts, program_id),
    }
}

/// What a successful Initialize stores satisfies the re-derivation demand:
/// the stored bumps reproduce the tracker record's own address and the
/// derived authority's address, the tracked counter is recorded, and the
/// local mirror starts at zero.
pub proof fn lemma_initialize_establishes_bumps(accounts: Seq<AccountV>, program_id: Seq<u8>)
    requires
        initialize_step(accounts, program_id) is Ok,
        accounts[3].key.len() == 32,
    ensures
        ({
            let out = initialize_step(accounts, program_id).unwrap();
            let t = parse_tracker(out[0].data).unwrap();
            &&& parse_tracker(out[0].data) is Some
            &&& reproduce_spec(
                tracker_seeds(accounts[1].key, accounts[3].key),
                t.bump,
                program_id,
            ) == Some(accounts[0].key)
            &&& reproduce_spec(authority_seeds(accounts[3].key), t.auth_bump, program_id) == Some(
                accounts[2].key,
            )
            &&& t.counter == accounts[3].key
            &&& t.count == 0
        }),
{
    let tb = derived_bump(tracker_seeds(accounts[1].key, accounts[3].key), program_id).unwrap();
    let ab = derived_bump(authority_seeds(accounts[3].key), program_id).unwrap();
    lemma_tracker_parse_saved(
        TrackerV { bump: tb, auth_bump: ab, counter: accounts[3].key, count: 0u64 },
    );
}

/// End to end: a successful tracker increment ran the counter program's own
/// increment with the derived authority as its signer — both stored bumps
/// reproduce the handed-in addresses — and both counts rose by one: the
/// remote counter record's and the tracker's local mirror.
pub proof fn lemma_increment_end_to_end(accounts: Seq<AccountV>, program_id: Seq<u8>)
    requires
        increment_step(accounts, program_id) is Ok,
        accounts[4].key.len() == 32,
    ensures
        ({
            let out = increment_step(accounts, program_id).unwrap();
            let t0 = parse_tracker(accounts[0].data).unwrap();
            let c0 = crate::authorized_counter::parse_counter(accounts[3].data).unwrap();
            let t1 = parse_tracker(out[0].data).unwrap();
            let c1 = crate::authorized_counter::parse_counter(out[3].data).unwrap();
            &&& parse_tracker(accounts[0].data) is Some
            &&& crate::authorized_counter::parse_counter(accounts[3].data) is Some
            &&& parse_tracker(out[0].data) is Some
            &&& crate::authorized_counter::parse_counter(out[3].data) is Some
            &&& reproduce_spec(authority_seeds(accounts[3].key), t0.auth_bump, program_id) == Some(
                accounts[4].key,
            )
            &&& reproduce_spec(
                tracker_seeds(accounts[1].key, accounts[3].key),
                t0.bump,
                program_id,
            ) == Some(accounts[0].key)
            &&& c1.count == c0.count + 1
            &&& t1.count == t0.count + 1
        }),
{
    let t0 = parse_tracker(accounts[0].data).unwrap();
    let c0 = crate::authorized_counter::parse_counter(accounts[3].data).unwrap();
    let bound = if c0.count == 0 {
        accounts[4].key
    } else {
        c0.authority
    };
    crate::authorized_counter::lemma_counter_parse_saved(
        crate::authorized_counter::CounterV { authority: bound, count: (c0.count + 1) as u64 },
    );
    lemma_tracker_parse_saved(TrackerV { count: (t0.count + 1) as u64, ..t0 });
}

/// The instruction processor of the tracker program.
pub struct Processor {}

impl Processor {
    /// Runs one instruction against the supplied account list. On success the
    /// returned list is the input with the touched records rewritten; on
    /// error nothing is returned, so the caller keeps every record as it was.
    pub fn process_instruction(
        program_id: &Identity,
        accounts: &Vec<Account>,
        instruction_data: &Vec<u8>,
    ) -> (r: Result<Vec<Account>, ProgError>)
        requires
            program_id.wf(),
            all_wf(accounts@),
        ensures
            (match r {
                Ok(out) => tracker_step(views(accounts@), instruction_data@, program_id@) == Ok::<
                    _,
                    ProgError,
                >(views(out@)),
                Err(e) => tracker_step(views(accounts@), instruction_data@, program_id@) == Err::<
                    Seq<AccountV>,
                    _,
                >(e),
            }),
    {
        let instruction = match decode_instruction(instruction_data) {
            Ok(i) => i,
            Err(e) => {
                return Err(e);
            },
        };
        match instruction {
            TrackerInstruction::Initialize => Self::process_initialize(program_id, accounts),
            TrackerInstruction::Increment => Self::process_increment(program_id, accounts),
        }
    }

    /// Initialize: derive both addresses, check the handed-in records, stamp
    /// the tracker record.
    fn process_initialize(program_id: &Identity, accounts: &Vec<Account>) -> (r: Result<
        Vec<Account>,
        ProgError,
    >)
        requires
            program_id.wf(),
            all_wf(accounts@),
        ensures
            (match r {
                Ok(out) => initialize_step(views(accounts@), program_id@) == Ok::<_, ProgError>(
                    views(out@),
                ),
                Err(e) => initialize_step(views(accounts@), program_id@) == Err::<
                    Seq<AccountV>,
                    _,
                >(e),
            }),
    {
        if accounts.len() < 5 {
            return Err(ProgError::NotEnoughAccountKeys);
        }
        let mut auth_seeds: Vec<Vec<u8>> = Vec::new();
        auth_seeds.push(clone_bytes(&accounts[3].key.bytes));
        proof {
            assert(seed_views(auth_seeds@) =~~= authority_seeds(views(accounts@)[3].key));
        }
        let (authority_key, auth_bump) = match search_derived(&auth_seeds, program_id) {
            Some(p) => p,
            None => {
                return Err(ProgError::InvalidArgument);
            },
        };
        let mut tr_seeds: Vec<Vec<u8>> = Vec::new();
        tr_seeds.push(clone_bytes(&accounts[1].key.bytes));
        tr_seeds.push(clone_bytes(&accounts[3].key.bytes));
        proof {
            assert(seed_views(tr_seeds@) =~~= tracker_seeds(
                views(accounts@)[1].key,
                views(accounts@)[3].key,
            ));
        }
        let (tracker_key, tracker_bump) = match search_derived(&tr_seeds, program_id) {
            Some(p) => p,
            None => {
                return Err(ProgError::InvalidArgument);
            },
        };
        if !accounts[4].key.is_zero() {
            return Err(ProgError::InvalidArgument);
        }
        if !tracker_key.same_as(&accounts[0].key) {
            return Err(ProgError::InvalidArgument);
        }
        if !authority_key.same_as(&accounts[2].key) {
            return Err(ProgError::InvalidArgument);
        }
        let mut tracker = match Tracker::load(&accounts[0].data) {
            Ok(t) => t,
            Err(e) => {
                return Err(e);
            },
        };
        tracker.bump = tracker_bump;
        tracker.auth_bump = auth_bump;
        tracker.counter = accounts[3].key.clone();
        tracker.count = 0;
        let new_data = tracker.save();
        let mut out = clone_accounts(accounts);
        set_data(&mut out, 0, new_data);
        proof {
            assert(views(out@) =~= views(accounts@).update(
                0,
                (AccountV { data: tracker_bytes(tracker@), ..views(accounts@)[0] }),
            ));
        }
        Ok(out)
    }

    /// Increment: re-validate both derivations from the stored bumps, invoke
    /// the counter program under the derived authority, mirror the count.
    fn process_increment(program_id: &Identity, accounts: &Vec<Account>) -> (r: Result<
        Vec<Account>,
        ProgError,
    >)
        requires
            program_id.wf(),
            all_wf(accounts@),
        ensures
            (match r {
                Ok(out) => increment_step(views(accounts@), program_id@) == Ok::<_, ProgError>(
                    views(out@),
                ),
                Err(e) => increment_step(views(accounts@), program_id@) == Err::<
                    Seq<AccountV>,
                    _,
                >(e),
            }),
    {
        if accounts.len() < 5 {
            return Err(ProgError::NotEnoughAccountKeys);
        }
        let mut tracker = match Tracker::load(&accounts[0].data) {
            Ok(t) => t,
            Err(e) => {
                return Err(e);
            },
        };
        let mut auth_seeds: Vec<Vec<u8>> = Vec::new();
        auth_seeds.push(clone_bytes(&accounts[3].key.bytes));
        proof {
            assert(seed_views(auth_seeds@) =~~= authority_seeds(views(accounts@)[3].key));
        }
        let auth_key = match reproduce(&auth_seeds, tracker.auth_bump, program_id) {
            Some(a) => a,
            None => {
                return Err(ProgError::InvalidArgument);
            },
        };
        if !auth_key.same_as(&accounts[4].key) {
            return Err(ProgError::InvalidArgument);
        }
        let mut tr_seeds: Vec<Vec<u8>> = Vec::new();
        tr_seeds.push(clone_bytes(&accounts[1].key.bytes));
        tr_seeds.push(clone_bytes(&accounts[3].key.bytes));
        proof {
            assert(seed_views(tr_seeds@) =~~= tracker_seeds(
                views(accounts@)[1].key,
                views(accounts@)[3].key,
            ));
        }
        let tracker_key = match reproduce(&tr_seeds, tracker.bump, program_id) {
            Some(a) => a,
            None => {
                return Err(ProgError::InvalidArgument);
            },
        };
        if !tracker_key.same_as(&accounts[0].key) {
            return Err(ProgError::InvalidArgument);
        }
        let ix = match increment(
            accounts[2].key.clone(),
            accounts[3].key.clone(),
            accounts[4].key.clone(),
            CounterInstruction::Increment,
        ) {
            Ok(ix) => ix,
            Err(e) => {
                return Err(e);
            },
        };
        let mut infos: Vec<Account> = Vec::new();
        infos.push(accounts[3].clone());
        infos.push(accounts[4].clone());
        proof {
            assert(meta_views(ix.accounts@) =~= seq![
                AccountMetaV {
                    pubkey: views(accounts@)[3].key,
                    is_signer: false,
                    is_writable: true,
                },
                AccountMetaV {
                    pubkey: views(accounts@)[4].key,
                    is_signer: true,
                    is_writable: false,
                },
            ]);
            assert(ix.data@ =~= seq![0u8]);
            assert(views(infos@) =~= seq![views(accounts@)[3], views(accounts@)[4]]);
            assert(crate::cpi::metas_wf(meta_views(ix.accounts@)));
            assert(all_wf(infos@));
        }
        let outs = match invoke_signed(program_id, &ix, &infos, &auth_seeds, tracker.auth_bump) {
            Ok(o) => o,
            Err(e) => {
                return Err(e);
            },
        };
        if tracker.count == u64::MAX {
            return Err(ProgError::Overflow);
        }
        tracker.count = tracker.count + 1;
        let new_tracker = tracker.save();
        proof {
            assert(views(outs@).len() == 2);
        }
        let counter_data = clone_bytes(&outs[0].data);
        let mut out = clone_accounts(accounts);
        set_data(&mut out, 3, counter_data);
        proof {
            assert(views(out@) =~= views(accounts@).update(
                3,
                (AccountV { data: views(outs@)[0].data, ..views(accounts@)[3] }),
            ));
            assert(out@.len() == accounts@.len());
            assert(views(out@)[0] == out@[0]@);
            assert(out@[0]@ == views(accounts@)[0]);
        }
        set_data(&mut out, 0, new_tracker);
        proof {
            assert(views(out@) =~= views(accounts@).update(
                3,
                (AccountV { data: views(outs@)[0].data, ..views(accounts@)[3] }),
            ).update(0, (AccountV { data: tracker_bytes(tracker@), ..views(accounts@)[0] })));
        }
        Ok(out)
    }
}

} // verus!
