//! The record handles an instruction receives: each carries the record's
//! address, the runtime's signer flag for it, and the record's raw bytes.
//!
//! A handler takes the list it was given and, on success, returns the whole
//! list with the records it changed rewritten; on failure it returns only the
//! error, so the caller keeps the old state. That mirrors the runtime's
//! atomicity rule: every write of an instruction is committed, or none is.

use vstd::prelude::*;
use crate::identity::Identity;

verus! {

/// The mathematical value of an account handle.
pub ghost struct AccountV {
    pub key: Seq<u8>,
    pub is_signer: bool,
    pub data: Seq<u8>,
}

/// One record handle: address, signer flag, raw record bytes.
#[derive(Debug)]
pub struct Account {
    pub key: Identity,
    pub is_signer: bool,
    pub data: Vec<u8>,
}

impl View for Account {
    type V = AccountV;

    open spec fn view(&self) -> AccountV {
        AccountV { key: self.key@, is_signer: self.is_signer, data: self.data@ }
    }
}

impl Account {
    /// A well-formed handle names a 32-byte address.
    pub open spec fn wf(&self) -> bool {
        self.key.wf()
    }
}

impl Clone for Account {
    fn clone(&self) -> (r: Self)
        ensures
            r@ == self@,
    {
        Account {
            key: self.key.clone(),
            is_signer: self.is_signer,
            data: crate::codec::clone_bytes(&self.data),
        }
    }
}

/// The values of a whole account list.
pub open spec fn views(s: Seq<Account>) -> Seq<AccountV> {
    Seq::new(s.len(), |i: int| s[i]@)
}

/// Every handle in the list names a 32-byte address.
pub open spec fn all_wf(s: Seq<Account>) -> bool {
    forall|i: int| 0 <= i < s.len() ==> (#[trigger] s[i]).wf()
}

/// A fresh copy of an account list.
pub fn clone_accounts(accounts: &Vec<Account>) -> (r: Vec<Account>)
    ensures
        views(r@) == views(accounts@),
        r@.len() == accounts@.len(),
{
    let n = accounts.len();
    let mut out: Vec<Account> = Vec::new();
    let mut i: usize = 0;
    while i < n
        invariant
            i <= n,
            n == accounts@.len(),
            out@.len() == i,
            forall|j: int| 0 <= j < i ==> out@[j]@ == accounts@[j]@,
        decreases n - i,
    {
        out.push(accounts[i].clone());
        i += 1;
    }
    proof {
        assert(views(out@) =~= views(accounts@));
    }
    out
}

/// Replaces the data of the account at `i`, leaving address and signer flag.
pub fn set_data(accounts: &mut Vec<Account>, i: usize, data: Vec<u8>)
    requires
        i < old(accounts)@.len(),
    ensures
        views(final(accounts)@) == views(old(accounts)@).update(
            i as int,
            (AccountV { data: data@, ..old(accounts)@[i as int]@ }),
        ),
        final(accounts)@.len() == old(accounts)@.len(),
{
    let prior = accounts.remove(i);
    accounts.insert(i, Account { key: prior.key, is_signer: prior.is_signer, data });
    proof {
        assert(views(accounts@) =~= views(old(accounts)@).update(
            i as int,
            (AccountV { data: data@, ..old(accounts)@[i as int]@ }),
        ));
    }
}

} // verus!
