//! The system module: the current block number and a transaction counter
//! for each account.

use vstd::prelude::*;
use crate::numeric::Unsigned;
use crate::storage::{Key, Table};

verus! {

/// The types that the system module works on.
pub trait Config {
    /// Identifies an account.
    type AccountId: Key;

    /// Counts blocks.
    type BlockNumber: Unsigned;

    /// Counts the extrinsics that an account has sent.
    type Nonce: Unsigned;
}

/// What the system module holds, as numbers: the block number, and each
/// account's nonce (zero for an account never seen).
#[verifier::reject_recursive_types(A)]
pub struct SystemState<A> {
    pub block_number: nat,
    pub nonces: Map<A, nat>,
}

/// The nonces after one more extrinsic is counted for an account.
pub open spec fn nonce_raised<A>(nonces: Map<A, nat>, who: A) -> Map<A, nat> {
    nonces.insert(who, nonces[who] + 1)
}

/// Counting two extrinsics for an account raises its nonce by two and
/// leaves every other account's nonce as it was.
pub proof fn lemma_nonce_raised_twice<A>(nonces: Map<A, nat>, who: A, other: A)
    requires
        other != who,
    ensures
        nonce_raised(nonce_raised(nonces, who), who)[who] == nonces[who] + 2,
        nonce_raised(nonce_raised(nonces, who), who)[other] == nonces[other],
{
}

/// In a fresh system, an account for which two extrinsics were counted has
/// nonce two, and every other account has nonce zero.
pub proof fn lemma_fresh_nonce_raised_twice<A>(who: A, other: A)
    requires
        other != who,
    ensures
        nonce_raised(nonce_raised(Map::total(|a: A| 0nat), who), who)[who] == 2,
        nonce_raised(nonce_raised(Map::total(|a: A| 0nat), who), who)[other] == 0,
{
}

/// The system module's state.
#[derive(Debug)]
pub struct Pallet<T: Config> {
    /// The current block number.
    block_number: T::BlockNumber,
    /// The nonce of each account that has sent an extrinsic.
    nonce: Table<T::AccountId, T::Nonce>,
}

impl<T: Config> View for Pallet<T> {
    type V = SystemState<<T::AccountId as View>::V>;

    closed spec fn view(&self) -> Self::V {
        SystemState {
            block_number: self.block_number.to_nat(),
            nonces: Map::total(
                |a: <T::AccountId as View>::V|
                    if self.nonce@.contains_key(a) {
                        self.nonce@[a].to_nat()
                    } else {
                        0nat
                    },
            ),
        }
    }
}

impl<T: Config> Pallet<T> {
    /// Whether the state is well formed.
    pub closed spec fn wf(&self) -> bool {
        self.nonce.wf()
    }

    /// No block number exceeds what its type can hold.
    pub proof fn lemma_block_number_within_limit(&self)
        ensures
            self@.block_number <= T::BlockNumber::limit(),
    {
        self.block_number.lemma_within_limit();
    }

    /// No nonce exceeds what its type can hold.
    pub proof fn lemma_nonce_within_limit(&self, who: <T::AccountId as View>::V)
        ensures
            self@.nonces[who] <= T::Nonce::limit(),
    {
        if self.nonce@.contains_key(who) {
            self.nonce@[who].lemma_within_limit();
        }
    }

    /// A fresh system: block number zero, every nonce zero.
    pub fn new() -> (r: Self)
        ensures
            r.wf(),
            r@.block_number == 0,
            r@.nonces == Map::total(|a: <T::AccountId as View>::V| 0nat),
            forall|who: <T::AccountId as View>::V| #[trigger] r@.nonces[who] == 0,
    {
        let r = Pallet { block_number: T::BlockNumber::zero(), nonce: Table::new() };
        assert(r@.nonces =~= Map::total(|a: <T::AccountId as View>::V| 0nat));
        r
    }

    /// The current block number.
    pub fn block_number(&self) -> (r: T::BlockNumber)
        ensures
            r.to_nat() == self@.block_number,
    {
        self.block_number
    }

    /// Advances the block number by one.
    pub fn inc_block_number(&mut self)
        requires
            old(self).wf(),
            old(self)@.block_number < T::BlockNumber::limit(),
        ensures
            final(self).wf(),
            final(self)@.block_number == old(self)@.block_number + 1,
            final(self)@.nonces == old(self)@.nonces,
    {
        let next = self.block_number.checked_add(T::BlockNumber::one());
        self.block_number = next.unwrap();
        assert(self@.nonces =~= old(self)@.nonces);
    }

    /// Advances an account's nonce by one.
    pub fn inc_nonce(&mut self, who: &T::AccountId)
        requires
            old(self).wf(),
            old(self)@.nonces[who@] < T::Nonce::limit(),
        ensures
            final(self).wf(),
            final(self)@.block_number == old(self)@.block_number,
            final(self)@.nonces == nonce_raised(old(self)@.nonces, who@),
    {
        let nonce = self.get_nonce(who);
        self.nonce.insert(who.duplicate(), nonce.plus(T::Nonce::one()));
        assert(self@.nonces =~= old(self)@.nonces.insert(who@, old(self)@.nonces[who@] + 1));
    }

    /// An account's nonce: zero for an account never seen.
    pub fn get_nonce(&self, who: &T::AccountId) -> (r: T::Nonce)
        requires
            self.wf(),
        ensures
            r.to_nat() == self@.nonces[who@],
    {
        match self.nonce.get(who) {
            Some(n) => *n,
            None => T::Nonce::zero(),
        }
    }
}

} // verus!
