//! Cross-contract invocation. A caller program builds an instruction naming
//! the callee program, the records it will touch and which of them must sign,
//! and hands the runtime a seed proof instead of a signature: the runtime
//! marks the derived identity as a valid signer only after reproducing the
//! derivation from the seeds, the bump and the *caller's* program identity.
//! The callee — here the authority-binding counter, the one program installed
//! beside its callers — then re-validates on its own whatever it relies on.
//! The invocation is synchronous and all-or-nothing: any failure aborts the
//! whole enclosing instruction.

use vstd::prelude::*;
use crate::account::{views, all_wf, Account, AccountV};
use crate::authorized_counter::counter_step;
use crate::codec::clone_bytes;
use crate::derivation::{reproduce, reproduce_spec, seed_views};
use crate::errors::ProgError;
use crate::identity::Identity;

verus! {

/// The mathematical value of one account meta.
pub ghost struct AccountMetaV {
    pub pubkey: Seq<u8>,
    pub is_signer: bool,
    pub is_writable: bool,
}

/// One entry of an instruction's account list: which record, whether it must
/// sign, whether it may be written.
#[derive(Debug)]
pub struct AccountMeta {
    pub pubkey: Identity,
    pub is_signer: bool,
    pub is_writable: bool,
}

impl View for AccountMeta {
    type V = AccountMetaV;

    open spec fn view(&self) -> AccountMetaV {
        AccountMetaV {
            pubkey: self.pubkey@,
            is_signer: self.is_signer,
            is_writable: self.is_writable,
        }
    }
}

/// The values of a whole meta list.
pub open spec fn meta_views(s: Seq<AccountMeta>) -> Seq<AccountMetaV> {
    Seq::new(s.len(), |i: int| s[i]@)
}

/// Every meta names a 32-byte address.
pub open spec fn metas_wf(s: Seq<AccountMetaV>) -> bool {
    forall|i: int| 0 <= i < s.len() ==> (#[trigger] s[i]).pubkey.len() == 32
}

/// An instruction aimed at another program: the callee's identity, the metas
/// of the records it will touch, and its encoded instruction bytes.
#[derive(Debug)]
pub struct Instruction {
    pub program_id: Identity,
    pub accounts: Vec<AccountMeta>,
    pub data: Vec<u8>,
}

/// The accounts the callee sees: one per meta, named by the meta's address,
/// carrying the meta's signer flag and the handed-in record bytes.
pub open spec fn callee_view(metas: Seq<AccountMetaV>, infos: Seq<AccountV>) -> Seq<AccountV>
    recommends
        infos.len() == metas.len(),
{
    Seq::new(
        metas.len(),
        |k: int|
            AccountV { key: metas[k].pubkey, is_signer: metas[k].is_signer, data: infos[k].data },
    )
}

/// The runtime's rule for a signed invocation, in the expected order: the
/// handed-in records must match the metas one for one; the seed proof must
/// reproduce under the caller's identity, granting that one derived address;
/// every meta that must sign must either have signed the outer instruction or
/// be the granted address; then the callee program runs on the records.
pub open spec fn invoke_signed_spec(
    caller_program: Seq<u8>,
    metas: Seq<AccountMetaV>,
    data: Seq<u8>,
    infos: Seq<AccountV>,
    seeds: Seq<Seq<u8>>,
    bump: u8,
) -> Result<Seq<AccountV>, ProgError> {
    if infos.len() != metas.len() {
        Err(ProgError::InvalidArgument)
    } else {
        match reproduce_spec(seeds, bump, caller_program) {
            None => Err(ProgError::InvalidArgument),
            Some(granted) => {
                if !(forall|k: int|
                    0 <= k < metas.len() ==> (#[trigger] infos[k]).key == metas[k].pubkey) {
                    Err(ProgError::InvalidArgument)
                } else if !(forall|k: int|
                    0 <= k < metas.len() ==> ((#[trigger] metas[k]).is_signer ==> infos[k].is_signer
                        || infos[k].key == granted)) {
                    Err(ProgError::MissingRequiredSignature)
                } else {
                    counter_step(callee_view(metas, infos), data)
                }
            },
        }
    }
}

/// Issues a signed invocation to the runtime: validates the seed proof and
/// the signer privileges, runs the callee, and returns the callee's accounts
/// — rewritten on success — to the caller. `infos` are the records backing
/// the instruction's metas, in the instruction's own order.
pub fn invoke_signed(
    caller_program: &Identity,
    ix: &Instruction,
    infos: &Vec<Account>,
    seeds: &Vec<Vec<u8>>,
    bump: u8,
) -> (r: Result<Vec<Account>, ProgError>)
    requires
        caller_program.wf(),
        metas_wf(meta_views(ix.accounts@)),
        all_wf(infos@),
    ensures
        (match r {
            Ok(out) => invoke_signed_spec(
                caller_program@,
                meta_views(ix.accounts@),
                ix.data@,
                views(infos@),
                seed_views(seeds@),
                bump,
            ) == Ok::<_, ProgError>(views(out@)),
            Err(e) => invoke_signed_spec(
                caller_program@,
                meta_views(ix.accounts@),
                ix.data@,
                views(infos@),
                seed_views(seeds@),
                bump,
            ) == Err::<Seq<AccountV>, _>(e),
        }),
{
    let n = ix.accounts.len();
    if infos.len() != n {
        return Err(ProgError::InvalidArgument);
    }
    let granted = match reproduce(seeds, bump, caller_program) {
        Some(g) => g,
        None => {
            return Err(ProgError::InvalidArgument);
        },
    };
    let mut k: usize = 0;
    while k < n
        invariant
            k <= n,
            n == ix.accounts@.len(),
            n == infos@.len(),
            forall|j: int| 0 <= j < k ==> (#[trigger] infos@[j])@.key == ix.accounts@[j]@.pubkey,
        decreases n - k,
    {
        if !infos[k].key.same_as(&ix.accounts[k].pubkey) {
            proof {
                assert(views(infos@)[k as int] == infos@[k as int]@);
                assert(meta_views(ix.accounts@)[k as int] == ix.accounts@[k as int]@);
            }
            return Err(ProgError::InvalidArgument);
        }
        k += 1;
    }
    proof {
        assert forall|j: int| 0 <= j < meta_views(ix.accounts@).len() implies (#[trigger] views(
            infos@,
        )[j]).key == meta_views(ix.accounts@)[j].pubkey by {
            assert(infos@[j]@.key == ix.accounts@[j]@.pubkey);
        }
    }
    let mut k: usize = 0;
    while k < n
        invariant
            k <= n,
            n == ix.accounts@.len(),
            n == infos@.len(),
            granted.wf(),
            reproduce_spec(seed_views(seeds@), bump, caller_program@) == Some(granted@),
            forall|j: int|
                0 <= j < k ==> ((#[trigger] ix.accounts@[j])@.is_signer ==> infos@[j]@.is_signer
                    || infos@[j]@.key == granted@),
            forall|j: int| 0 <= j < n ==> (#[trigger] infos@[j])@.key == ix.accounts@[j]@.pubkey,
        decreases n - k,
    {
        if ix.accounts[k].is_signer {
            if !infos[k].is_signer && !infos[k].key.same_as(&granted) {
                proof {
                    assert(views(infos@)[k as int] == infos@[k as int]@);
                    assert(meta_views(ix.accounts@)[k as int] == ix.accounts@[k as int]@);
                }
                return Err(ProgError::MissingRequiredSignature);
            }
        }
        k += 1;
    }
    let mut callee: Vec<Account> = Vec::new();
    let mut k: usize = 0;
    while k < n
        invariant
            k <= n,
            n == ix.accounts@.len(),
            n == infos@.len(),
            callee@.len() == k,
            metas_wf(meta_views(ix.accounts@)),
            forall|j: int|
                0 <= j < k ==> (#[trigger] callee@[j])@ == (AccountV {
                    key: ix.accounts@[j]@.pubkey,
                    is_signer: ix.accounts@[j]@.is_signer,
                    data: infos@[j]@.data,
                }),
        decreases n - k,
    {
        callee.push(
            Account {
                key: ix.accounts[k].pubkey.clone(),
                is_signer: ix.accounts[k].is_signer,
                data: clone_bytes(&infos[k].data),
            },
        );
        k += 1;
    }
    proof {
        assert(views(callee@) =~= callee_view(meta_views(ix.accounts@), views(infos@)));
        assert forall|j: int| 0 <= j < callee@.len() implies (#[trigger] callee@[j]).wf() by {
            assert(callee@[j]@.key == ix.accounts@[j]@.pubkey);
        }
    }
    crate::authorized_counter::Processor::process_instruction(&ix.program_id, &callee, &ix.data)
}

} // verus!
