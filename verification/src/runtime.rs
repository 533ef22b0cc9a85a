//! The runtime: one instance of each module, the routing of calls to them,
//! and the execution of blocks.

use vstd::prelude::*;
use crate::balances::{transfer_ledger, transfer_refusal};
use crate::proof_of_existence::{create_refusal, revoke_refusal};
use crate::storage::Key;
use crate::support::{reports, Dispatch, DispatchResult};
use crate::system::{nonce_raised, SystemState};
use crate::types::{AccountId, Balance, Block, BlockNumber, Content, Extrinsic, Nonce};

verus! {

/// Every call that can be sent to the runtime, by the module that owns it.
#[allow(non_camel_case_types)]
#[derive(Debug)]
pub enum RuntimeCall {
    /// A call of the balances module.
    balances(crate::balances::Call<RuntimeConfig>),
    /// A call of the record-of-existence module.
    proof_of_existence(crate::proof_of_existence::Call<RuntimeConfig>),
}

/// Why a block as a whole is refused.
#[derive(Clone, Copy, Debug, PartialEq, Eq, Structural)]
pub enum BlockError {
    /// The header declares another number than the one that comes next.
    NumberMismatch { expected: BlockNumber, found: BlockNumber },
}

/// The state of the whole runtime, as mathematical values.
pub struct RuntimeState {
    /// The block number and the nonces.
    pub system: SystemState<Seq<char>>,
    /// Each account's balance, zero for an account never written.
    pub balances: Map<Seq<char>, nat>,
    /// The owner of each claimed content.
    pub claims: Map<Seq<char>, Seq<char>>,
}

/// The runtime: it owns one instance of each module.
#[derive(Debug)]
pub struct Runtime {
    system: crate::system::Pallet<RuntimeConfig>,
    balances: crate::balances::Pallet<RuntimeConfig>,
    proof_of_existence: crate::proof_of_existence::Pallet<RuntimeConfig>,
}

/// The configuration of the runtime: it binds every module to one set of
/// concrete types.
#[derive(Debug)]
pub struct RuntimeConfig;

impl crate::system::Config for RuntimeConfig {
    type AccountId = AccountId;

    type BlockNumber = BlockNumber;

    type Nonce = Nonce;
}

impl crate::balances::Config for RuntimeConfig {
    type Balance = Balance;
}

impl crate::proof_of_existence::Config for RuntimeConfig {
    type Content = Content;
}

/// Why a call is refused in a state, if it is.
pub open spec fn call_refusal(s: RuntimeState, caller: Seq<char>, call: RuntimeCall) -> Option<
    Seq<char>,
> {
    match call {
        RuntimeCall::balances(crate::balances::Call::transfer { to, amount }) => transfer_refusal(
            s.balances,
            caller,
            to@,
            amount as nat,
            u128::MAX as nat,
        ),
        RuntimeCall::proof_of_existence(
            crate::proof_of_existence::Call::create_claim { claim },
        ) => create_refusal(s.claims, claim@),
        RuntimeCall::proof_of_existence(
            crate::proof_of_existence::Call::revoke_claim { claim },
        ) => revoke_refusal(s.claims, caller, claim@),
    }
}

/// The state after a call that is not refused.
pub open spec fn call_effect(s: RuntimeState, caller: Seq<char>, call: RuntimeCall) -> RuntimeState {
    match call {
        RuntimeCall::balances(crate::balances::Call::transfer { to, amount }) => RuntimeState {
            balances: transfer_ledger(s.balances, caller, to@, amount as nat),
            ..s
        },
        RuntimeCall::proof_of_existence(
            crate::proof_of_existence::Call::create_claim { claim },
        ) => RuntimeState { claims: s.claims.insert(claim@, caller), ..s },
        RuntimeCall::proof_of_existence(
            crate::proof_of_existence::Call::revoke_claim { claim },
        ) => RuntimeState { claims: s.claims.remove(claim@), ..s },
    }
}

/// The state after a call: a refused call changes nothing.
pub open spec fn after_call(s: RuntimeState, caller: Seq<char>, call: RuntimeCall) -> RuntimeState {
    if call_refusal(s, caller, call) is Some {
        s
    } else {
        call_effect(s, caller, call)
    }
}

/// The state with one more extrinsic counted for an account.
pub open spec fn with_nonce_raised(s: RuntimeState, who: Seq<char>) -> RuntimeState {
    RuntimeState {
        system: SystemState {
            block_number: s.system.block_number,
            nonces: nonce_raised(s.system.nonces, who),
        },
        ..s
    }
}

/// The state with the block number advanced by one.
pub open spec fn with_block_advanced(s: RuntimeState) -> RuntimeState {
    RuntimeState {
        system: SystemState {
            block_number: s.system.block_number + 1,
            nonces: s.system.nonces,
        },
        ..s
    }
}

/// Why the call of an extrinsic is refused, if it is: judged in the state
/// in which the extrinsic is already counted for its sender.
pub open spec fn extrinsic_refusal(s: RuntimeState, ext: Extrinsic) -> Option<Seq<char>> {
    call_refusal(with_nonce_raised(s, ext.caller@), ext.caller@, ext.call)
}

/// The state after one extrinsic: the caller's nonce is raised whatever
/// becomes of the call, then the call is made.
pub open spec fn after_extrinsic(s: RuntimeState, ext: Extrinsic) -> RuntimeState {
    after_call(with_nonce_raised(s, ext.caller@), ext.caller@, ext.call)
}

/// The state after a sequence of extrinsics, applied in order.
pub open spec fn after_extrinsics(s: RuntimeState, exts: Seq<Extrinsic>) -> RuntimeState
    decreases exts.len(),
{
    if exts.len() == 0 {
        s
    } else {
        after_extrinsic(after_extrinsics(s, exts.drop_last()), exts.last())
    }
}

/// How many of the extrinsics an account has sent.
pub open spec fn sent_by(exts: Seq<Extrinsic>, who: Seq<char>) -> nat
    decreases exts.len(),
{
    if exts.len() == 0 {
        0
    } else {
        sent_by(exts.drop_last(), who) + if exts.last().caller@ == who {
            1nat
        } else {
            0nat
        }
    }
}

/// Whether every sender's nonce can still count all the extrinsics that
/// the sender has in the sequence.
pub open spec fn nonces_have_room(s: RuntimeState, exts: Seq<Extrinsic>) -> bool {
    forall|who: Seq<char>| #[trigger] s.system.nonces[who] + sent_by(exts, who) <= u32::MAX
}

/// A sequence of extrinsics raises each account's nonce by the number of
/// extrinsics that the account sent, whatever became of their calls, and
/// leaves the block number alone.
pub proof fn lemma_nonces_count_extrinsics(s: RuntimeState, exts: Seq<Extrinsic>, who: Seq<char>)
    ensures
        after_extrinsics(s, exts).system.nonces[who] == s.system.nonces[who] + sent_by(exts, who),
        after_extrinsics(s, exts).system.block_number == s.system.block_number,
    decreases exts.len(),
{
    if exts.len() > 0 {
        lemma_nonces_count_extrinsics(s, exts.drop_last(), who);
    }
}

/// A block whose header declares the next number raises the block number
/// by exactly one, whatever its extrinsics are and whatever becomes of them.
pub proof fn lemma_block_raises_number_by_one(s: RuntimeState, exts: Seq<Extrinsic>)
    ensures
        after_extrinsics(with_block_advanced(s), exts).system.block_number
            == s.system.block_number + 1,
{
    lemma_nonces_count_extrinsics(with_block_advanced(s), exts, Seq::<char>::empty());
}

/// An extrinsic whose call is refused changes nothing but its sender's
/// nonce, and what comes after it in a sequence is applied all the same.
pub proof fn lemma_refused_extrinsic_only_counts(
    s: RuntimeState,
    exts: Seq<Extrinsic>,
    ext: Extrinsic,
    next: Extrinsic,
)
    requires
        extrinsic_refusal(after_extrinsics(s, exts), ext) is Some,
    ensures
        after_extrinsics(s, exts.push(ext)) == with_nonce_raised(
            after_extrinsics(s, exts),
            ext.caller@,
        ),
        after_extrinsics(s, exts.push(ext).push(next)) == after_extrinsic(
            with_nonce_raised(after_extrinsics(s, exts), ext.caller@),
            next,
        ),
{
    lemma_extrinsics_apply_in_order(s, exts, ext);
    lemma_extrinsics_apply_in_order(s, exts.push(ext), next);
}

/// Extrinsics are applied in the order of the sequence: the last one acts
/// on the state that those before it have left.
pub proof fn lemma_extrinsics_apply_in_order(s: RuntimeState, exts: Seq<Extrinsic>, ext: Extrinsic)
    ensures
        after_extrinsics(s, exts.push(ext)) == after_extrinsic(after_extrinsics(s, exts), ext),
        after_extrinsics(s, Seq::<Extrinsic>::empty()) == s,
{
    assert(exts.push(ext).drop_last() =~= exts);
}

/// Each module keeps to its own state: a call of the balances module
/// leaves the claims as they were, and a call of the record-of-existence
/// module leaves the balances as they were.
pub proof fn lemma_modules_are_independent(s: RuntimeState, caller: Seq<char>, call: RuntimeCall)
    ensures
        call is balances ==> after_call(s, caller, call).claims == s.claims,
        call is proof_of_existence ==> after_call(s, caller, call).balances == s.balances,
{
}

/// A refused call leaves the whole state as it was, and no call touches the
/// block number or the nonces.
pub proof fn lemma_call_is_all_or_nothing(s: RuntimeState, caller: Seq<char>, call: RuntimeCall)
    ensures
        call_refusal(s, caller, call) is Some ==> after_call(s, caller, call) == s,
        after_call(s, caller, call).system == s.system,
{
}

/// An account that has sent one of the extrinsics is the sender of one of
/// them.
pub proof fn lemma_sender_occurs(exts: Seq<Extrinsic>, who: Seq<char>)
    requires
        sent_by(exts, who) > 0,
    ensures
        exists|j: int| 0 <= j < exts.len() && (#[trigger] exts[j]).caller@ == who,
    decreases exts.len(),
{
    if exts.last().caller@ == who {
        assert(exts[exts.len() - 1].caller@ == who);
    } else {
        lemma_sender_occurs(exts.drop_last(), who);
        let j = choose|j: int|
            0 <= j < exts.drop_last().len() && (#[trigger] exts.drop_last()[j]).caller@ == who;
        assert(exts[j].caller@ == who);
    }
}

/// Counts the extrinsics that an account has sent.
fn count_sent(exts: &Vec<Extrinsic>, who: &AccountId) -> (n: usize)
    ensures
        n == sent_by(exts@, who@),
{
    let mut n: usize = 0;
    let mut j: usize = 0;
    while j < exts.len()
        invariant
            j <= exts@.len(),
            n <= j,
            n == sent_by(exts@.take(j as int), who@),
        decreases exts@.len() - j,
    {
        proof {
            assert(exts@.take(j + 1).drop_last() =~= exts@.take(j as int));
        }
        if exts[j].caller.same(who) {
            n = n + 1;
        }
        j = j + 1;
    }
    proof {
        assert(exts@.take(exts@.len() as int) =~= exts@);
    }
    n
}

/// An account has sent no more extrinsics in the first `n` of a sequence
/// than in the whole of it.
pub proof fn lemma_sent_by_prefix(exts: Seq<Extrinsic>, n: int, who: Seq<char>)
    requires
        0 <= n <= exts.len(),
    ensures
        sent_by(exts.take(n), who) <= sent_by(exts, who),
    decreases exts.len(),
{
    if n == exts.len() {
        assert(exts.take(n) =~= exts);
    } else {
        lemma_sent_by_prefix(exts.drop_last(), n, who);
        assert(exts.drop_last().take(n) =~= exts.take(n));
    }
}

impl View for Runtime {
    type V = RuntimeState;

    closed spec fn view(&self) -> RuntimeState {
        RuntimeState {
            system: self.system@,
            balances: self.balances@,
            claims: self.proof_of_existence@,
        }
    }
}

impl Runtime {
    /// Whether the state is well formed.
    pub closed spec fn wf(&self) -> bool {
        &&& self.system.wf()
        &&& self.balances.wf()
        &&& self.proof_of_existence.wf()
    }

    /// No number of the state exceeds what its type can hold.
    pub proof fn lemma_within_limits(&self, who: Seq<char>)
        ensures
            self@.system.block_number <= u32::MAX,
            self@.system.nonces[who] <= u32::MAX,
            self@.balances[who] <= u128::MAX,
    {
        self.system.lemma_block_number_within_limit();
        self.system.lemma_nonce_within_limit(who);
        self.balances.lemma_balance_within_limit(who);
    }

    /// A fresh runtime: block number zero, no nonce, no funds, no claim.
    pub fn new() -> (r: Self)
        ensures
            r.wf(),
            r@.system.block_number == 0,
            r@.system.nonces == Map::total(|a: Seq<char>| 0nat),
            r@.balances == Map::total(|a: Seq<char>| 0nat),
            r@.claims == Map::<Seq<char>, Seq<char>>::empty(),
            forall|who: Seq<char>| #[trigger] r@.system.nonces[who] == 0,
            forall|who: Seq<char>| #[trigger] r@.balances[who] == 0,
    {
        Runtime {
            system: crate::system::Pallet::new(),
            balances: crate::balances::Pallet::new(),
            proof_of_existence: crate::proof_of_existence::Pallet::new(),
        }
    }

    /// The current block number.
    pub fn block_number(&self) -> (r: BlockNumber)
        ensures
            r == self@.system.block_number,
    {
        self.system.block_number()
    }

    /// An account's nonce: zero for an account never seen.
    pub fn get_nonce(&self, who: &AccountId) -> (r: Nonce)
        requires
            self.wf(),
        ensures
            r == self@.system.nonces[who@],
    {
        self.system.get_nonce(who)
    }

    /// An account's balance: zero for an account never written.
    pub fn balance(&self, who: &AccountId) -> (r: Balance)
        requires
            self.wf(),
        ensures
            r == self@.balances[who@],
    {
        self.balances.balance(who)
    }

    /// The owner of a claim, if it has one.
    pub fn get_claim(&self, claim: &Content) -> (r: Option<&AccountId>)
        requires
            self.wf(),
        ensures
            match r {
                Some(owner) => self@.claims.contains_key(claim@) && owner@ == self@.claims[claim@],
                None => !self@.claims.contains_key(claim@),
            },
    {
        self.proof_of_existence.get_claim(claim)
    }

    /// Sets an account's balance, whatever it was: the way to endow
    /// accounts before the first block.
    pub fn set_balance(&mut self, who: &AccountId, amount: Balance)
        requires
            old(self).wf(),
        ensures
            final(self).wf(),
            final(self)@ == (RuntimeState {
                balances: old(self)@.balances.insert(who@, amount as nat),
                ..old(self)@
            }),
    {
        self.balances.set_balance(who, amount);
    }

    /// Whether every sender's nonce can still count all the extrinsics that
    /// the sender has in the sequence.
    pub fn has_room_for(&self, exts: &Vec<Extrinsic>) -> (b: bool)
        requires
            self.wf(),
        ensures
            b == nonces_have_room(self@, exts@),
    {
        let mut i: usize = 0;
        while i < exts.len()
            invariant
                i <= exts@.len(),
                self.wf(),
                forall|j: int|
                    0 <= j < i ==> self@.system.nonces[(#[trigger] exts@[j]).caller@] + sent_by(
                        exts@,
                        exts@[j].caller@,
                    ) <= u32::MAX,
            decreases exts@.len() - i,
        {
            let who = &exts[i].caller;
            let sent = count_sent(exts, who);
            let nonce = self.system.get_nonce(who);
            if sent > (u32::MAX - nonce) as usize {
                assert(!(self@.system.nonces[who@] + sent_by(exts@, who@) <= u32::MAX));
                return false;
            }
            i = i + 1;
        }
        proof {
            assert forall|who: Seq<char>| #[trigger]
                self@.system.nonces[who] + sent_by(exts@, who) <= u32::MAX by {
                self.lemma_within_limits(who);
                if sent_by(exts@, who) > 0 {
                    lemma_sender_occurs(exts@, who);
                    let j = choose|j: int|
                        0 <= j < exts@.len() && (#[trigger] exts@[j]).caller@ == who;
                    assert(self@.system.nonces[exts@[j].caller@] + sent_by(
                        exts@,
                        exts@[j].caller@,
                    ) <= u32::MAX);
                }
            }
        }
        true
    }

    /// Whether a block can be executed: the block number can still advance,
    /// and, where the header declares the next number, every sender's nonce
    /// can count the sender's extrinsics.
    pub fn can_execute(&self, block: &Block) -> (b: bool)
        requires
            self.wf(),
        ensures
            b == (self@.system.block_number < u32::MAX && (block.header.block_number
                == self@.system.block_number + 1 ==> nonces_have_room(
                self@,
                block.extrinsics@,
            ))),
    {
        let current = self.system.block_number();
        if current == u32::MAX {
            return false;
        }
        if block.header.block_number != current + 1 {
            return true;
        }
        self.has_room_for(&block.extrinsics)
    }

    /// Counts one extrinsic for its sender, then makes its call. What the
    /// call returns is handed back; the nonce is raised either way.
    fn apply_extrinsic(&mut self, ext: Extrinsic) -> (r: DispatchResult)
        requires
            old(self).wf(),
            old(self)@.system.nonces[ext.caller@] < u32::MAX,
        ensures
            final(self).wf(),
            final(self)@ == after_extrinsic(old(self)@, ext),
            reports(r, extrinsic_refusal(old(self)@, ext)),
    {
        self.system.inc_nonce(&ext.caller);
        self.dispatch(ext.caller, ext.call)
    }

    /// Executes a block and reports what became of each extrinsic. A block
    /// whose header does not declare the next block number is refused and
    /// changes nothing. For any other the block number advances by one and
    /// the extrinsics are applied in order; a call that is refused changes
    /// nothing but its sender's nonce, and the block succeeds all the same.
    /// The results of the calls come back in the order of the extrinsics.
    pub fn execute_block_reporting(&mut self, block: Block) -> (r: Result<
        Vec<DispatchResult>,
        BlockError,
    >)
        requires
            old(self).wf(),
            old(self)@.system.block_number < u32::MAX,
            block.header.block_number == old(self)@.system.block_number + 1 ==> nonces_have_room(
                old(self)@,
                block.extrinsics@,
            ),
        ensures
            final(self).wf(),
            block.header.block_number != old(self)@.system.block_number + 1 ==> r == Err::<
                Vec<DispatchResult>,
                BlockError,
            >(
                BlockError::NumberMismatch {
                    expected: (old(self)@.system.block_number + 1) as u32,
                    found: block.header.block_number,
                },
            ) && final(self)@ == old(self)@,
            block.header.block_number == old(self)@.system.block_number + 1 ==> r is Ok
                && final(self)@ == after_extrinsics(
                with_block_advanced(old(self)@),
                block.extrinsics@,
            ) && r->Ok_0@.len() == block.extrinsics@.len() && forall|i: int|
                0 <= i < block.extrinsics@.len() ==> reports(
                    #[trigger] r->Ok_0@[i],
                    extrinsic_refusal(
                        after_extrinsics(
                            with_block_advanced(old(self)@),
                            block.extrinsics@.take(i),
                        ),
                        block.extrinsics@[i],
                    ),
                ),
    {
        let expected = self.system.block_number() + 1;
        if block.header.block_number != expected {
            return Err(BlockError::NumberMismatch { expected, found: block.header.block_number });
        }
        self.system.inc_block_number();
        let ghost start = self@;
        let ghost exts = block.extrinsics@;
        assert(start == with_block_advanced(old(self)@));
        assert(exts.take(0) =~= Seq::<Extrinsic>::empty());
        let mut outcomes: Vec<DispatchResult> = Vec::new();
        for ext in it: block.extrinsics.into_iter()
            invariant
                it.seq() == exts,
                self.wf(),
                self@ == after_extrinsics(start, exts.take(it.index() as int)),
                nonces_have_room(start, exts),
                outcomes@.len() == it.index(),
                forall|j: int|
                    0 <= j < it.index() ==> reports(
                        #[trigger] outcomes@[j],
                        extrinsic_refusal(after_extrinsics(start, exts.take(j)), exts[j]),
                    ),
        {
            let ghost i = it.index() as int;
            proof {
                let who = ext.caller@;
                lemma_nonces_count_extrinsics(start, exts.take(i), who);
                lemma_sent_by_prefix(exts, i + 1, who);
                assert(exts.take(i + 1).drop_last() =~= exts.take(i));
                assert(exts.take(i + 1).last() == ext);
                assert(start.system.nonces[who] + sent_by(exts, who) <= u32::MAX);
            }
            let outcome = self.apply_extrinsic(ext);
            outcomes.push(outcome);
        }
        assert(exts.take(exts.len() as int) =~= exts);
        Ok(outcomes)
    }

    /// Executes a block. A block whose header does not declare the next
    /// block number is refused and changes nothing. For any other the block
    /// number advances by one and the extrinsics are applied in order; a
    /// call that is refused changes nothing but its sender's nonce, and the
    /// block succeeds all the same.
    pub fn execute_block(&mut self, block: Block) -> (r: Result<(), BlockError>)
        requires
            old(self).wf(),
            old(self)@.system.block_number < u32::MAX,
            block.header.block_number == old(self)@.system.block_number + 1 ==> nonces_have_room(
                old(self)@,
                block.extrinsics@,
            ),
        ensures
            final(self).wf(),
            block.header.block_number != old(self)@.system.block_number + 1 ==> r == Err::<
                (),
                BlockError,
            >(
                BlockError::NumberMismatch {
                    expected: (old(self)@.system.block_number + 1) as u32,
                    found: block.header.block_number,
                },
            ) && final(self)@ == old(self)@,
            block.header.block_number == old(self)@.system.block_number + 1 ==> r is Ok
                && final(self)@ == after_extrinsics(
                with_block_advanced(old(self)@),
                block.extrinsics@,
            ),
    {
        match self.execute_block_reporting(block) {
            Ok(_outcomes) => Ok(()),
            Err(e) => Err(e),
        }
    }
}

impl Dispatch for Runtime {
    type Caller = AccountId;

    type Call = RuntimeCall;

    open spec fn dispatch_ready(&self) -> bool {
        self.wf()
    }

    /// Routes a call to the module that owns it, and hands back what the
    /// module returns.
    fn dispatch(&mut self, caller: AccountId, call: RuntimeCall) -> (r: DispatchResult)
        ensures
            final(self)@ == after_call(old(self)@, caller@, call),
            reports(r, call_refusal(old(self)@, caller@, call)),
    {
        match call {
            RuntimeCall::balances(inner) => self.balances.dispatch(caller, inner),
            RuntimeCall::proof_of_existence(inner) => self.proof_of_existence.dispatch(
                caller,
                inner,
            ),
        }
    }
}

} // verus!
