//! The plain-value model of the caller-supplied account list.
//!
//! The external runtime hands each invocation an ordered list of account
//! handles; the handlers read and mutate exactly the fields modelled here:
//! identity key, ownership tag, signer flag, balance counter, and the
//! account-resident byte buffer.

use vstd::prelude::*;

verus! {

/// One entry of the caller-supplied account list.
pub struct Account {
    /// The account's identity key.
    pub key: Vec<u8>,
    /// Ownership tag: which contract may mutate the account's buffer.
    pub owner: Vec<u8>,
    /// Whether this account's identity co-signed the current invocation.
    pub is_signer: bool,
    /// Balance counter.
    pub lamports: u64,
    /// Mutable account-resident byte buffer.
    pub data: Vec<u8>,
}

/// Mathematical model of one account.
#[verifier::ext_equal]
pub ghost struct AccountView {
    pub key: Seq<u8>,
    pub owner: Seq<u8>,
    pub is_signer: bool,
    pub lamports: u64,
    pub data: Seq<u8>,
}

impl View for Account {
    type V = AccountView;

    open spec fn view(&self) -> AccountView {
        AccountView {
            key: self.key@,
            owner: self.owner@,
            is_signer: self.is_signer,
            lamports: self.lamports,
            data: self.data@,
        }
    }
}

/// The model of a whole account list.
pub open spec fn views(s: Seq<Account>) -> Seq<AccountView> {
    s.map_values(|a: Account| a@)
}

pub proof fn lemma_views_update(s: Seq<Account>, i: int, x: Account)
    requires
        0 <= i < s.len(),
    ensures
        views(s.update(i, x)) == views(s).update(i, x@),
{
    assert(views(s.update(i, x)) =~= views(s).update(i, x@));
}

} // verus!
