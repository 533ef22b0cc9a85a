use ledger_runtime::balances;
use ledger_runtime::proof_of_existence;
use ledger_runtime::runtime::{BlockError, Runtime, RuntimeCall};
use ledger_runtime::support::{Block, Dispatch, Extrinsic, Header};
use ledger_runtime::types;

fn transfer(from: &str, to: &str, amount: u128) -> types::Extrinsic {
    Extrinsic {
        caller: from.to_string(),
        call: RuntimeCall::balances(balances::Call::transfer { to: to.to_string(), amount }),
    }
}

fn create_claim(from: &str, claim: &'static str) -> types::Extrinsic {
    Extrinsic {
        caller: from.to_string(),
        call: RuntimeCall::proof_of_existence(proof_of_existence::Call::create_claim { claim }),
    }
}

fn revoke_claim(from: &str, claim: &'static str) -> types::Extrinsic {
    Extrinsic {
        caller: from.to_string(),
        call: RuntimeCall::proof_of_existence(proof_of_existence::Call::revoke_claim { claim }),
    }
}

fn block(number: u32, extrinsics: Vec<types::Extrinsic>) -> types::Block {
    Block { header: Header { block_number: number }, extrinsics }
}

#[test]
fn fresh_runtime_is_empty() {
    let runtime = Runtime::new();
    assert_eq!(runtime.block_number(), 0);
    assert_eq!(runtime.get_nonce(&"alice".to_string()), 0);
    assert_eq!(runtime.balance(&"alice".to_string()), 0);
    assert_eq!(runtime.get_claim(&"doc"), None);
}

#[test]
fn header_mismatch_voids_the_block() {
    let alice = "alice".to_string();
    let bob = "bob".to_string();
    let mut runtime = Runtime::new();
    runtime.set_balance(&alice, 100);
    let refused = runtime.execute_block(block(5, vec![transfer("alice", "bob", 30)]));
    assert_eq!(refused, Err(BlockError::NumberMismatch { expected: 1, found: 5 }));
    assert_eq!(runtime.block_number(), 0);
    assert_eq!(runtime.balance(&alice), 100);
    assert_eq!(runtime.balance(&bob), 0);
    assert_eq!(runtime.get_nonce(&alice), 0);
}

#[test]
fn a_block_cannot_repeat_or_precede_the_current_number() {
    let mut runtime = Runtime::new();
    assert_eq!(
        runtime.execute_block(block(0, vec![])),
        Err(BlockError::NumberMismatch { expected: 1, found: 0 })
    );
    assert_eq!(runtime.execute_block(block(1, vec![])), Ok(()));
    assert_eq!(
        runtime.execute_block(block(1, vec![])),
        Err(BlockError::NumberMismatch { expected: 2, found: 1 })
    );
    assert_eq!(
        runtime.execute_block(block(3, vec![])),
        Err(BlockError::NumberMismatch { expected: 2, found: 3 })
    );
    assert_eq!(runtime.block_number(), 1);
    assert_eq!(runtime.execute_block(block(2, vec![])), Ok(()));
    assert_eq!(runtime.block_number(), 2);
}

#[test]
fn a_failing_extrinsic_does_not_stop_the_block() {
    let alice = "alice".to_string();
    let bob = "bob".to_string();
    let charlie = "charlie".to_string();
    let mut runtime = Runtime::new();
    runtime.set_balance(&alice, 100);
    let done = runtime.execute_block(block(
        1,
        vec![transfer("alice", "bob", 30), transfer("charlie", "alice", 500)],
    ));
    assert_eq!(done, Ok(()));
    assert_eq!(runtime.balance(&alice), 70);
    assert_eq!(runtime.balance(&bob), 30);
    assert_eq!(runtime.balance(&charlie), 0);
    assert_eq!(runtime.get_nonce(&alice), 1);
    assert_eq!(runtime.get_nonce(&charlie), 1);
    assert_eq!(runtime.get_nonce(&bob), 0);
    assert_eq!(runtime.block_number(), 1);
}

#[test]
fn a_failing_extrinsic_is_followed_by_the_next() {
    let alice = "alice".to_string();
    let bob = "bob".to_string();
    let mut runtime = Runtime::new();
    runtime.set_balance(&alice, 100);
    let done = runtime.execute_block(block(
        1,
        vec![transfer("bob", "alice", 1), transfer("alice", "bob", 30), transfer("bob", "alice", 1)],
    ));
    assert_eq!(done, Ok(()));
    assert_eq!(runtime.balance(&alice), 71);
    assert_eq!(runtime.balance(&bob), 29);
    assert_eq!(runtime.get_nonce(&alice), 1);
    assert_eq!(runtime.get_nonce(&bob), 2);
}

#[test]
fn a_block_of_failures_still_succeeds() {
    let alice = "alice".to_string();
    let mut runtime = Runtime::new();
    let done = runtime.execute_block(block(
        1,
        vec![
            transfer("alice", "bob", 1),
            revoke_claim("alice", "doc"),
            transfer("alice", "alice", 1),
        ],
    ));
    assert_eq!(done, Ok(()));
    assert_eq!(runtime.block_number(), 1);
    assert_eq!(runtime.get_nonce(&alice), 3);
    assert_eq!(runtime.balance(&alice), 0);
    assert_eq!(runtime.get_claim(&"doc"), None);
}

#[test]
fn end_to_end() {
    let alice = "alice".to_string();
    let bob = "bob".to_string();
    let charlie = "charlie".to_string();
    let mut runtime = Runtime::new();
    runtime.set_balance(&alice, 100);
    let done = runtime.execute_block(block(
        1,
        vec![transfer("alice", "bob", 30), transfer("alice", "charlie", 20)],
    ));
    assert_eq!(done, Ok(()));
    assert_eq!(runtime.balance(&alice), 50);
    assert_eq!(runtime.balance(&bob), 30);
    assert_eq!(runtime.balance(&charlie), 20);
    assert_eq!(runtime.get_nonce(&alice), 2);
    assert_eq!(runtime.block_number(), 1);

    let done = runtime.execute_block(block(
        2,
        vec![create_claim("alice", "my_document"), create_claim("bob", "bobs document")],
    ));
    assert_eq!(done, Ok(()));
    assert_eq!(runtime.block_number(), 2);
    assert_eq!(runtime.get_claim(&"my_document"), Some(&alice));
    assert_eq!(runtime.get_claim(&"bobs document"), Some(&bob));
    assert_eq!(runtime.get_nonce(&alice), 3);
    assert_eq!(runtime.get_nonce(&bob), 1);
    assert_eq!(runtime.balance(&alice), 50);
}

#[test]
fn the_order_of_extrinsics_decides_who_is_paid() {
    let alice = "alice".to_string();
    let bob = "bob".to_string();
    let charlie = "charlie".to_string();
    let mut runtime = Runtime::new();
    runtime.set_balance(&alice, 50);
    let done = runtime.execute_block(block(
        1,
        vec![transfer("alice", "bob", 40), transfer("alice", "charlie", 40)],
    ));
    assert_eq!(done, Ok(()));
    assert_eq!(runtime.balance(&alice), 10);
    assert_eq!(runtime.balance(&bob), 40);
    assert_eq!(runtime.balance(&charlie), 0);
    assert_eq!(runtime.get_nonce(&alice), 2);
}

#[test]
fn claims_in_blocks() {
    let alice = "alice".to_string();
    let bob = "bob".to_string();
    let mut runtime = Runtime::new();
    let done = runtime.execute_block(block(
        1,
        vec![
            create_claim("alice", "doc"),
            create_claim("bob", "doc"),
            revoke_claim("bob", "doc"),
        ],
    ));
    assert_eq!(done, Ok(()));
    assert_eq!(runtime.get_claim(&"doc"), Some(&alice));
    assert_eq!(runtime.get_nonce(&alice), 1);
    assert_eq!(runtime.get_nonce(&bob), 2);
    let done = runtime.execute_block(block(2, vec![revoke_claim("alice", "doc")]));
    assert_eq!(done, Ok(()));
    assert_eq!(runtime.get_claim(&"doc"), None);
    assert_eq!(runtime.block_number(), 2);
}

#[test]
fn dispatch_reports_what_the_module_returns() {
    let alice = "alice".to_string();
    let bob = "bob".to_string();
    let mut runtime = Runtime::new();
    runtime.set_balance(&alice, 10);
    let call = RuntimeCall::balances(balances::Call::transfer { to: bob.clone(), amount: 30 });
    assert_eq!(runtime.dispatch(alice.clone(), call), Err("Not enough funds"));
    let call = RuntimeCall::balances(balances::Call::transfer { to: bob.clone(), amount: 10 });
    assert_eq!(runtime.dispatch(alice.clone(), call), Ok(()));
    assert_eq!(runtime.balance(&bob), 10);
    let call = RuntimeCall::proof_of_existence(proof_of_existence::Call::create_claim {
        claim: "doc",
    });
    assert_eq!(runtime.dispatch(bob.clone(), call), Ok(()));
    let call = RuntimeCall::proof_of_existence(proof_of_existence::Call::create_claim {
        claim: "doc",
    });
    assert_eq!(runtime.dispatch(alice.clone(), call), Err("this content is already claimed"));
    let call = RuntimeCall::proof_of_existence(proof_of_existence::Call::revoke_claim {
        claim: "doc",
    });
    assert_eq!(
        runtime.dispatch(alice.clone(), call),
        Err("this content is owned by someone else")
    );
    let call = RuntimeCall::proof_of_existence(proof_of_existence::Call::revoke_claim {
        claim: "gone",
    });
    assert_eq!(runtime.dispatch(alice.clone(), call), Err("claim does not exist"));
    assert_eq!(runtime.get_nonce(&alice), 0);
    assert_eq!(runtime.block_number(), 0);
}

#[test]
fn a_refused_call_is_counted_all_the_same() {
    let alice = "alice".to_string();
    let mut runtime = Runtime::new();
    let outcomes = runtime.execute_block_reporting(block(1, vec![transfer("alice", "bob", 1)]));
    assert_eq!(outcomes, Ok(vec![Err("Not enough funds")]));
    assert_eq!(runtime.get_nonce(&alice), 1);
    runtime.set_balance(&alice, 1);
    let outcomes = runtime.execute_block_reporting(block(2, vec![transfer("alice", "bob", 1)]));
    assert_eq!(outcomes, Ok(vec![Ok(())]));
    assert_eq!(runtime.get_nonce(&alice), 2);
    assert_eq!(runtime.balance(&"bob".to_string()), 1);
    assert_eq!(runtime.block_number(), 2);
}

#[test]
fn outcomes_come_back_in_order() {
    let alice = "alice".to_string();
    let mut runtime = Runtime::new();
    runtime.set_balance(&alice, 100);
    let outcomes = runtime.execute_block_reporting(block(
        1,
        vec![
            transfer("bob", "alice", 1),
            transfer("alice", "bob", 30),
            create_claim("alice", "doc"),
            create_claim("bob", "doc"),
            revoke_claim("bob", "doc"),
            revoke_claim("bob", "other"),
        ],
    ));
    assert_eq!(
        outcomes,
        Ok(vec![
            Err("Not enough funds"),
            Ok(()),
            Ok(()),
            Err("this content is already claimed"),
            Err("this content is owned by someone else"),
            Err("claim does not exist"),
        ])
    );
    assert_eq!(runtime.block_number(), 1);
    assert_eq!(runtime.get_nonce(&alice), 2);
    assert_eq!(runtime.get_nonce(&"bob".to_string()), 4);
    assert_eq!(runtime.balance(&alice), 70);
}

#[test]
fn a_refused_block_reports_no_outcomes() {
    let mut runtime = Runtime::new();
    let outcomes = runtime.execute_block_reporting(block(2, vec![transfer("alice", "bob", 0)]));
    assert_eq!(outcomes, Err(BlockError::NumberMismatch { expected: 1, found: 2 }));
    assert_eq!(runtime.get_nonce(&"alice".to_string()), 0);
    assert_eq!(runtime.block_number(), 0);
}

#[test]
fn an_empty_block_only_advances_the_number() {
    let mut runtime = Runtime::new();
    assert_eq!(runtime.execute_block_reporting(block(1, vec![])), Ok(vec![]));
    assert_eq!(runtime.block_number(), 1);
}

#[test]
fn a_fresh_runtime_can_execute_what_it_is_given() {
    let runtime = Runtime::new();
    let exts = vec![transfer("alice", "bob", 1), transfer("alice", "bob", 1)];
    assert!(runtime.has_room_for(&exts));
    assert!(runtime.has_room_for(&vec![]));
    assert!(runtime.can_execute(&block(1, exts)));
    assert!(runtime.can_execute(&block(7, vec![])));
}
