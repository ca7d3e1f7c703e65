//! Deterministic address derivation: a pure function from a seed list and an
//! owning program's identity to a derived address that no external key can
//! sign for. `derive_address` searches bumps from 255 downward for the first the hash
//! accepts; `reproduce` recomputes an address from a stored bump without
//! searching. Every instruction that relies on a derived identity must
//! re-check the derivation — seeds are caller-supplied inputs.

use vstd::prelude::*;
use crate::codec::clone_bytes;
use crate::identity::Identity;

verus! {

/// The views of a list of seed byte-strings.
pub open spec fn seed_views(s: Seq<Vec<u8>>) -> Seq<Seq<u8>> {
    Seq::new(s.len(), |i: int| s[i]@)
}

/// What the host's one-way address hash returns for a seed list and an owning
/// program: a 32-byte derived address, or nothing where the hash refuses the
/// seeds (a seed over 32 bytes, more than 16 seeds, or a digest that falls in
/// the externally signable address subspace).
pub uninterp spec fn pda_of(seeds: Seq<Seq<u8>>, program_id: Seq<u8>) -> Option<Seq<u8>>;

/// Relies on solana-program's `Pubkey::create_program_address`: a SHA-256
/// digest of the seed bytes, the program id and a fixed marker, refused when
/// it lies on the ed25519 curve — a pure function of its arguments that never
/// panics and errors exactly on over-long seed lists or an on-curve digest.
#[verifier::external_body]
fn hash_seeds(seeds: &Vec<Vec<u8>>, program_id: &Identity) -> (r: Option<Identity>)
    requires
        program_id.wf(),
    ensures
        (match r {
            Some(id) => pda_of(seed_views(seeds@), program_id@) == Some(id@) && id@.len() == 32,
            None => pda_of(seed_views(seeds@), program_id@) is None,
        }),
{
    let mut arr = [0u8; 32];
    arr.copy_from_slice(program_id.bytes.as_slice());
    let pid = solana_program::pubkey::Pubkey::new_from_array(arr);
    let refs: Vec<&[u8]> = seeds.iter().map(|s| s.as_slice()).collect();
    match solana_program::pubkey::Pubkey::create_program_address(&refs, &pid) {
        Ok(a) => Some(Identity { bytes: a.to_bytes().to_vec() }),
        Err(_) => None,
    }
}

/// The address a stored bump reproduces: the hash of the seed list with the
/// bump appended as a final one-byte seed.
pub open spec fn reproduce_spec(seeds: Seq<Seq<u8>>, bump: u8, owner: Seq<u8>) -> Option<Seq<u8>> {
    pda_of(seeds.push(seq![bump]), owner)
}

/// Recomputes a derived address from its seeds and a stored bump, without
/// searching. The result is a function of the arguments alone.
pub fn reproduce(seeds: &Vec<Vec<u8>>, bump: u8, owner: &Identity) -> (r: Option<Identity>)
    requires
        owner.wf(),
    ensures
        (match r {
            Some(id) => reproduce_spec(seed_views(seeds@), bump, owner@) == Some(id@) && id.wf(),
            None => reproduce_spec(seed_views(seeds@), bump, owner@) is None,
        }),
{
    let n = seeds.len();
    let mut with_bump: Vec<Vec<u8>> = Vec::new();
    let mut i: usize = 0;
    while i < n
        invariant
            i <= n,
            n == seeds@.len(),
            with_bump@.len() == i,
            forall|j: int| 0 <= j < i ==> #[trigger] with_bump@[j]@ == seeds@[j]@,
        decreases n - i,
    {
        with_bump.push(clone_bytes(&seeds[i]));
        i += 1;
    }
    let mut bump_seed: Vec<u8> = Vec::new();
    bump_seed.push(bump);
    with_bump.push(bump_seed);
    proof {
        assert(seed_views(with_bump@) =~~= seed_views(seeds@).push(seq![bump]));
    }
    hash_seeds(&with_bump, owner)
}

/// Reproduction is deterministic: one seed list, bump and owner admit exactly
/// one result, so two reproductions of identical inputs agree.
pub proof fn lemma_reproduce_deterministic(
    seeds: Seq<Seq<u8>>,
    bump: u8,
    owner: Seq<u8>,
    r1: Option<Seq<u8>>,
    r2: Option<Seq<u8>>,
)
    requires
        r1 == reproduce_spec(seeds, bump, owner),
        r2 == reproduce_spec(seeds, bump, owner),
    ensures
        r1 == r2,
{
}

/// The bump the derivation search finds: the largest bump whose address the
/// hash accepts, if any bump is accepted at all.
pub open spec fn derived_bump(seeds: Seq<Seq<u8>>, program_id: Seq<u8>) -> Option<u8> {
    if exists|b: u8| reproduce_spec(seeds, b, program_id) is Some {
        Some(
            choose|b: u8|
                reproduce_spec(seeds, b, program_id) is Some && (forall|c: u8|
                    c > b ==> reproduce_spec(seeds, c, program_id) is None),
        )
    } else {
        None
    }
}

/// The address belonging to the bump the search finds.
pub open spec fn derived_address(seeds: Seq<Seq<u8>>, program_id: Seq<u8>) -> Option<Seq<u8>> {
    match derived_bump(seeds, program_id) {
        Some(b) => reproduce_spec(seeds, b, program_id),
        None => None,
    }
}

/// Above any accepted bump there is a largest accepted bump.
proof fn lemma_largest_bump_from(seeds: Seq<Seq<u8>>, program_id: Seq<u8>, k: u8)
    requires
        reproduce_spec(seeds, k, program_id) is Some,
    ensures
        exists|b: u8|
            (#[trigger] reproduce_spec(seeds, b, program_id)) is Some && (forall|c: u8|
                c > b ==> reproduce_spec(seeds, c, program_id) is None),
    decreases 255 - k,
{
    if forall|c: u8| c > k ==> reproduce_spec(seeds, c, program_id) is None {
        assert(reproduce_spec(seeds, k, program_id) is Some && (forall|c: u8|
            c > k ==> reproduce_spec(seeds, c, program_id) is None));
    } else {
        let c = choose|c: u8| c > k && !(reproduce_spec(seeds, c, program_id) is None);
        lemma_largest_bump_from(seeds, program_id, c);
    }
}

/// A bump that is accepted, with every higher bump refused, is the bump the
/// search finds.
proof fn lemma_derived_bump_is(seeds: Seq<Seq<u8>>, program_id: Seq<u8>, bump: u8)
    requires
        reproduce_spec(seeds, bump, program_id) is Some,
        forall|c: u8| c > bump ==> reproduce_spec(seeds, c, program_id) is None,
    ensures
        derived_bump(seeds, program_id) == Some(bump),
{
    assert(exists|b: u8| reproduce_spec(seeds, b, program_id) is Some);
    let b = choose|b: u8|
        reproduce_spec(seeds, b, program_id) is Some && (forall|c: u8|
            c > b ==> reproduce_spec(seeds, c, program_id) is None);
    lemma_largest_bump_from(seeds, program_id, bump);
    if b < bump {
        assert(reproduce_spec(seeds, bump, program_id) is None);
    }
    if b > bump {
        assert(reproduce_spec(seeds, b, program_id) is None);
    }
}

/// Searches for the derived address of a seed list under an owning program:
/// tries bumps from 255 downward and returns the first address the hash
/// accepts, together with the bump that produced it.
pub fn derive_address(seeds: &Vec<Vec<u8>>, program_id: &Identity) -> (r: Option<(Identity, u8)>)
    requires
        program_id.wf(),
    ensures
        (match r {
            Some(found) => derived_bump(seed_views(seeds@), program_id@) == Some(found.1)
                && reproduce_spec(seed_views(seeds@), found.1, program_id@) == Some(found.0@)
                && derived_address(seed_views(seeds@), program_id@) == Some(found.0@)
                && found.0.wf(),
            None => derived_bump(seed_views(seeds@), program_id@) is None,
        }),
{
    let mut bump: u8 = 255;
    loop
        invariant
            program_id.wf(),
            forall|c: u8| c > bump ==> reproduce_spec(seed_views(seeds@), c, program_id@) is None,
        decreases bump,
    {
        match reproduce(seeds, bump, program_id) {
            Some(id) => {
                proof {
                    lemma_derived_bump_is(seed_views(seeds@), program_id@, bump);
                }
                return Some((id, bump));
            }
            None => {},
        }
        if bump == 0 {
            proof {
                assert forall|b: u8| reproduce_spec(seed_views(seeds@), b, program_id@) is None by {
                    if b > 0 {
                        assert(reproduce_spec(seed_views(seeds@), b, program_id@) is None);
                    }
                }
            }
            return None;
        }
        bump = bump - 1;
    }
}

} // verus!
