//! The record-of-existence module: which account owns which content.

use vstd::prelude::*;
use crate::storage::{Key, Table};
use crate::support::{fails_with, Dispatch, DispatchResult};

verus! {

/// The types that the record-of-existence module works on, beyond those of
/// the system module.
pub trait Config: crate::system::Config {
    /// The content that a claim is about.
    type Content: Key;
}

/// Why a new claim is refused, if it is: the content has an owner already.
pub open spec fn create_refusal<C, A>(claims: Map<C, A>, claim: C) -> Option<Seq<char>> {
    if claims.contains_key(claim) {
        Some("this content is already claimed"@)
    } else {
        None
    }
}

/// What creating a claim returns and leaves behind: a refused one reports
/// why and changes nothing, any other records the caller as the owner.
pub open spec fn create_outcome<C, A>(
    before: Map<C, A>,
    caller: A,
    claim: C,
    r: DispatchResult,
    after: Map<C, A>,
) -> bool {
    match create_refusal(before, claim) {
        Some(why) => fails_with(r, why) && after == before,
        None => r is Ok && after == before.insert(claim, caller),
    }
}

/// Why revoking a claim is refused, if it is: the content has no owner, or
/// its owner is not the caller.
pub open spec fn revoke_refusal<C, A>(claims: Map<C, A>, caller: A, claim: C) -> Option<
    Seq<char>,
> {
    if !claims.contains_key(claim) {
        Some("claim does not exist"@)
    } else if claims[claim] != caller {
        Some("this content is owned by someone else"@)
    } else {
        None
    }
}

/// What revoking a claim returns and leaves behind: a refused one reports
/// why and changes nothing, any other removes the claim.
pub open spec fn revoke_outcome<C, A>(
    before: Map<C, A>,
    caller: A,
    claim: C,
    r: DispatchResult,
    after: Map<C, A>,
) -> bool {
    match revoke_refusal(before, caller, claim) {
        Some(why) => fails_with(r, why) && after == before,
        None => r is Ok && after == before.remove(claim),
    }
}

/// The life of a claim on content that nobody owns: the first claim is
/// accepted; while it stands, a second claim is refused, and so is a
/// revocation by anyone but the owner; the owner's revocation is accepted
/// and leaves the records as they were before the claim.
pub proof fn lemma_claim_lifecycle<C, A>(claims: Map<C, A>, owner: A, other: A, claim: C)
    requires
        !claims.contains_key(claim),
        other != owner,
    ensures
        create_refusal(claims, claim) is None,
        create_refusal(claims.insert(claim, owner), claim) == Some(
            "this content is already claimed"@,
        ),
        revoke_refusal(claims.insert(claim, owner), other, claim) == Some(
            "this content is owned by someone else"@,
        ),
        revoke_refusal(claims.insert(claim, owner), owner, claim) is None,
        claims.insert(claim, owner).remove(claim) == claims,
        revoke_refusal(claims, owner, claim) == Some("claim does not exist"@),
{
    assert(claims.insert(claim, owner).remove(claim) =~= claims);
}

/// Content has at most one owner: an accepted claim gives the content its
/// owner and changes no other record, and a refused one changes none.
pub proof fn lemma_claims_never_overwritten<C, A>(
    before: Map<C, A>,
    caller: A,
    claim: C,
    r: DispatchResult,
    after: Map<C, A>,
    content: C,
)
    requires
        create_outcome(before, caller, claim, r, after),
        before.contains_key(content),
    ensures
        after.contains_key(content),
        after[content] == before[content],
{
}

/// The record-of-existence module's state.
#[derive(Debug)]
pub struct Pallet<T: Config> {
    /// The owner of each claimed content.
    claims: Table<T::Content, T::AccountId>,
}

/// The calls that the record-of-existence module takes from outside.
#[allow(non_camel_case_types)]
#[derive(Debug)]
pub enum Call<T: Config> {
    /// Records the caller as the owner of `claim`.
    create_claim { claim: T::Content },
    /// Gives up the caller's ownership of `claim`.
    revoke_claim { claim: T::Content },
}

impl<T: Config> View for Pallet<T> {
    type V = Map<<T::Content as View>::V, <T::AccountId as View>::V>;

    /// The owner of each claimed content; unclaimed content has no entry.
    closed spec fn view(&self) -> Self::V {
        self.claims@.map_values(|a: T::AccountId| a@)
    }
}

impl<T: Config> Pallet<T> {
    /// Whether the state is well formed.
    pub closed spec fn wf(&self) -> bool {
        self.claims.wf()
    }

    /// A fresh module: nothing is claimed.
    pub fn new() -> (r: Self)
        ensures
            r.wf(),
            r@ == Map::<<T::Content as View>::V, <T::AccountId as View>::V>::empty(),
    {
        let r = Pallet { claims: Table::new() };
        assert(r@ =~= Map::<<T::Content as View>::V, <T::AccountId as View>::V>::empty());
        r
    }

    /// The owner of `claim`, if it has one.
    pub fn get_claim(&self, claim: &T::Content) -> (r: Option<&T::AccountId>)
        requires
            self.wf(),
        ensures
            match r {
                Some(owner) => self@.contains_key(claim@) && owner@ == self@[claim@],
                None => !self@.contains_key(claim@),
            },
    {
        self.claims.get(claim)
    }

    /// Records `caller` as the owner of `claim`, unless it has an owner.
    pub fn create_claim(&mut self, caller: T::AccountId, claim: T::Content) -> (r: DispatchResult)
        requires
            old(self).wf(),
        ensures
            final(self).wf(),
            create_outcome(old(self)@, caller@, claim@, r, final(self)@),
    {
        if self.claims.get(&claim).is_some() {
            return Err("this content is already claimed");
        }
        let ghost caller_id = caller@;
        let ghost claim_id = claim@;
        self.claims.insert(claim, caller);
        assert(self@ =~= old(self)@.insert(claim_id, caller_id));
        Ok(())
    }

    /// Removes `claim`, if `caller` owns it.
    pub fn revoke_claim(&mut self, caller: T::AccountId, claim: T::Content) -> (r: DispatchResult)
        requires
            old(self).wf(),
        ensures
            final(self).wf(),
            revoke_outcome(old(self)@, caller@, claim@, r, final(self)@),
    {
        match self.claims.get(&claim) {
            None => {
                return Err("claim does not exist");
            },
            Some(owner) => {
                if !owner.same(&caller) {
                    return Err("this content is owned by someone else");
                }
            },
        }
        self.claims.remove(&claim);
        assert(self@ =~= old(self)@.remove(claim@));
        Ok(())
    }
}

impl<T: Config> Dispatch for Pallet<T> {
    type Caller = T::AccountId;

    type Call = Call<T>;

    open spec fn dispatch_ready(&self) -> bool {
        self.wf()
    }

    /// Routes a call to the operation that it names.
    fn dispatch(&mut self, caller: Self::Caller, call: Self::Call) -> (r: DispatchResult)
        ensures
            match call {
                Call::create_claim { claim } => create_outcome(
                    old(self)@,
                    caller@,
                    claim@,
                    r,
                    final(self)@,
                ),
                Call::revoke_claim { claim } => revoke_outcome(
                    old(self)@,
                    caller@,
                    claim@,
                    r,
                    final(self)@,
                ),
            },
    {
        match call {
            Call::create_claim { claim } => self.create_claim(caller, claim),
            Call::revoke_claim { claim } => self.revoke_claim(caller, claim),
        }
    }
}

} // verus!
