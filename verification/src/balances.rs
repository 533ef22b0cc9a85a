//! The balances module: a balance for each account, and transfers between
//! accounts that can neither overdraw the sender nor overflow the receiver.

use vstd::prelude::*;
use crate::numeric::Unsigned;
use crate::storage::{Key, Table};
use crate::support::{fails_with, Dispatch, DispatchResult};

verus! {

/// The types that the balances module works on, beyond those of the system
/// module.
pub trait Config: crate::system::Config {
    /// An amount of funds.
    type Balance: Unsigned;
}

/// Why a transfer is refused, if it is: the sender holds less than the
/// amount, or the receiver's balance would exceed `limit`. Both are judged
/// on the balances before the transfer, also where sender and receiver are
/// the same account.
pub open spec fn transfer_refusal<A>(
    ledger: Map<A, nat>,
    caller: A,
    to: A,
    amount: nat,
    limit: nat,
) -> Option<Seq<char>> {
    if ledger[caller] < amount {
        Some("Not enough funds"@)
    } else if ledger[to] + amount > limit {
        Some("Overflow"@)
    } else {
        None
    }
}

/// The balances after a transfer that is not refused: the sender's reduced
/// balance is written first, then the receiver's balance before the
/// transfer, raised by the amount.
pub open spec fn transfer_ledger<A>(ledger: Map<A, nat>, caller: A, to: A, amount: nat) -> Map<
    A,
    nat,
> {
    ledger.insert(caller, (ledger[caller] - amount) as nat).insert(to, ledger[to] + amount)
}

/// What a transfer returns and leaves behind: a refused transfer reports
/// why and changes nothing, any other succeeds and moves the amount.
pub open spec fn transfer_outcome<A>(
    before: Map<A, nat>,
    caller: A,
    to: A,
    amount: nat,
    limit: nat,
    r: DispatchResult,
    after: Map<A, nat>,
) -> bool {
    match transfer_refusal(before, caller, to, amount, limit) {
        Some(why) => fails_with(r, why) && after == before,
        None => r is Ok && after == transfer_ledger(before, caller, to, amount),
    }
}

/// A transfer between two different accounts that is not refused takes
/// from the sender exactly what it gives to the receiver, and touches no
/// other account.
pub proof fn lemma_transfer_conserves<A>(
    ledger: Map<A, nat>,
    caller: A,
    to: A,
    amount: nat,
    limit: nat,
)
    requires
        caller != to,
        transfer_refusal(ledger, caller, to, amount, limit) is None,
    ensures
        transfer_ledger(ledger, caller, to, amount)[caller] + amount == ledger[caller],
        transfer_ledger(ledger, caller, to, amount)[to] == ledger[to] + amount,
        transfer_ledger(ledger, caller, to, amount)[caller] + transfer_ledger(
            ledger,
            caller,
            to,
            amount,
        )[to] == ledger[caller] + ledger[to],
        transfer_ledger(ledger, caller, to, amount)[to] <= limit,
        forall|other: A|
            other != caller && other != to ==> #[trigger] transfer_ledger(
                ledger,
                caller,
                to,
                amount,
            )[other] == ledger[other],
{
}

/// The balances module's state.
#[derive(Debug)]
pub struct Pallet<T: Config> {
    /// The balance of each account that was ever written.
    balances: Table<T::AccountId, T::Balance>,
}

/// The calls that the balances module takes from outside.
#[allow(non_camel_case_types)]
#[derive(Debug)]
pub enum Call<T: Config> {
    /// Moves `amount` from the caller to `to`.
    transfer { to: T::AccountId, amount: T::Balance },
}

impl<T: Config> View for Pallet<T> {
    type V = Map<<T::AccountId as View>::V, nat>;

    /// Each account's balance, zero for an account never written.
    closed spec fn view(&self) -> Self::V {
        Map::total(
            |a: <T::AccountId as View>::V|
                if self.balances@.contains_key(a) {
                    self.balances@[a].to_nat()
                } else {
                    0nat
                },
        )
    }
}

impl<T: Config> Pallet<T> {
    /// Whether the state is well formed.
    pub closed spec fn wf(&self) -> bool {
        self.balances.wf()
    }

    /// No balance exceeds what its type can hold.
    pub proof fn lemma_balance_within_limit(&self, who: <T::AccountId as View>::V)
        ensures
            self@[who] <= T::Balance::limit(),
    {
        if self.balances@.contains_key(who) {
            self.balances@[who].lemma_within_limit();
        }
    }

    /// A fresh module: every balance is zero.
    pub fn new() -> (r: Self)
        ensures
            r.wf(),
            r@ == Map::total(|a: <T::AccountId as View>::V| 0nat),
            forall|who: <T::AccountId as View>::V| #[trigger] r@[who] == 0,
    {
        let r = Pallet { balances: Table::new() };
        assert(r@ =~= Map::total(|a: <T::AccountId as View>::V| 0nat));
        r
    }

    /// Sets the balance of `who` to `amount`, whatever it was.
    pub fn set_balance(&mut self, who: &T::AccountId, amount: T::Balance)
        requires
            old(self).wf(),
        ensures
            final(self).wf(),
            final(self)@ == old(self)@.insert(who@, amount.to_nat()),
    {
        self.balances.insert(who.duplicate(), amount);
        assert(self@ =~= old(self)@.insert(who@, amount.to_nat()));
    }

    /// The balance of `who`: zero for an account never written.
    pub fn balance(&self, who: &T::AccountId) -> (r: T::Balance)
        requires
            self.wf(),
        ensures
            r.to_nat() == self@[who@],
    {
        match self.balances.get(who) {
            Some(b) => *b,
            None => T::Balance::zero(),
        }
    }

    /// Moves `amount` from `caller` to `to`, or refuses and changes nothing.
    pub fn transfer(&mut self, caller: T::AccountId, to: T::AccountId, amount: T::Balance) -> (r:
        DispatchResult)
        requires
            old(self).wf(),
        ensures
            final(self).wf(),
            transfer_outcome(
                old(self)@,
                caller@,
                to@,
                amount.to_nat(),
                T::Balance::limit(),
                r,
                final(self)@,
            ),
    {
        let caller_balance = self.balance(&caller);
        let to_balance = self.balance(&to);
        let new_caller_balance = match caller_balance.checked_sub(amount) {
            Some(b) => b,
            None => {
                return Err("Not enough funds");
            },
        };
        let new_to_balance = match to_balance.checked_add(amount) {
            Some(b) => b,
            None => {
                return Err("Overflow");
            },
        };
        let ghost caller_id = caller@;
        let ghost to_id = to@;
        self.balances.insert(caller, new_caller_balance);
        self.balances.insert(to, new_to_balance);
        assert(self@ =~= transfer_ledger(old(self)@, caller_id, to_id, amount.to_nat()));
        Ok(())
    }
}

impl<T: Config> Dispatch for Pallet<T> {
    type Caller = T::AccountId;

    type Call = Call<T>;

    open spec fn dispatch_ready(&self) -> bool {
        self.wf()
    }

    /// Routes a call to the operation that it names.
    fn dispatch(&mut self, caller: Self::Caller, call: Self::Call) -> (r: DispatchResult)
        ensures
            match call {
                Call::transfer { to, amount } => transfer_outcome(
                    old(self)@,
                    caller@,
                    to@,
                    amount.to_nat(),
                    T::Balance::limit(),
                    r,
                    final(self)@,
                ),
            },
    {
        match call {
            Call::transfer { to, amount } => self.transfer(caller, to, amount),
        }
    }
}

} // verus!
