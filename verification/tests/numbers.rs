use ledger_runtime::numeric::Unsigned;
use ledger_runtime::storage::{Key, Table};

#[test]
fn zero_and_one() {
    assert_eq!(<u32 as Unsigned>::zero(), 0u32);
    assert_eq!(<u32 as Unsigned>::one(), 1u32);
    assert_eq!(<u128 as Unsigned>::zero(), 0u128);
    assert_eq!(<u128 as Unsigned>::one(), 1u128);
}

#[test]
fn checked_sums() {
    assert_eq!(Unsigned::checked_add(2u32, 3u32), Some(5u32));
    assert_eq!(Unsigned::checked_add(u32::MAX - 1, 1u32), Some(u32::MAX));
    assert_eq!(Unsigned::checked_add(u32::MAX, 1u32), None);
    assert_eq!(Unsigned::checked_add(7u32, 0u32), Some(7u32));
    assert_eq!(Unsigned::checked_add(20u128, 22u128), Some(42u128));
    assert_eq!(Unsigned::checked_add(u128::MAX, 0u128), Some(u128::MAX));
    assert_eq!(Unsigned::checked_add(u128::MAX, 1u128), None);
    assert_eq!(Unsigned::checked_add(1u128, u128::MAX), None);
}

#[test]
fn checked_differences() {
    assert_eq!(Unsigned::checked_sub(5u32, 3u32), Some(2u32));
    assert_eq!(Unsigned::checked_sub(3u32, 3u32), Some(0u32));
    assert_eq!(Unsigned::checked_sub(3u32, 5u32), None);
    assert_eq!(Unsigned::checked_sub(100u128, 30u128), Some(70u128));
    assert_eq!(Unsigned::checked_sub(0u128, 1u128), None);
    assert_eq!(Unsigned::checked_sub(u128::MAX, u128::MAX), Some(0u128));
}

#[test]
fn plain_sums() {
    assert_eq!(Unsigned::plus(2u32, 3u32), 5u32);
    assert_eq!(Unsigned::plus(0u32, u32::MAX), u32::MAX);
    assert_eq!(Unsigned::plus(u128::MAX - 1, 1u128), u128::MAX);
}

#[test]
fn keys_compare_by_content() {
    let a = String::from("alice");
    let b = String::from("alice");
    let c = String::from("alicf");
    assert!(a.same(&b));
    assert!(!a.same(&c));
    assert!(!a.same(&String::new()));
    assert_eq!(a.duplicate(), a);
    let x: &'static str = "doc";
    let y: &'static str = "doc";
    let z: &'static str = "dot";
    assert!(x.same(&y));
    assert!(!x.same(&z));
    assert!(!x.same(&""));
    assert_eq!(x.duplicate(), "doc");
}

#[test]
fn table_holds_one_value_for_each_key() {
    let mut table: Table<String, u32> = Table::new();
    let a = String::from("a");
    let b = String::from("b");
    assert_eq!(table.get(&a), None);
    table.insert(a.clone(), 1);
    table.insert(b.clone(), 2);
    assert_eq!(table.get(&a), Some(&1));
    assert_eq!(table.get(&b), Some(&2));
    table.insert(a.clone(), 3);
    assert_eq!(table.get(&a), Some(&3));
    assert_eq!(table.get(&b), Some(&2));
    table.remove(&a);
    assert_eq!(table.get(&a), None);
    assert_eq!(table.get(&b), Some(&2));
    table.remove(&a);
    assert_eq!(table.get(&a), None);
    assert_eq!(table.get(&b), Some(&2));
    table.remove(&b);
    assert_eq!(table.get(&b), None);
}
