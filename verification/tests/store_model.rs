use db_ext_macro::assemble::RecordField;
use db_ext_macro::store::{new_store, resolve_cycle, Durability, EvalOutcome, MemoTable};

fn fields(names: &[&str]) -> Vec<RecordField> {
    names
        .iter()
        .map(|n| RecordField { name: n.to_string(), ty: "String".to_string() })
        .collect()
}

#[test]
fn unset_read_fails_fatally() {
    // a getter on a field never written finds no value: the generated
    // code's unwrap fails fatally rather than inventing a default
    let store = new_store::<String>(&fields(&["input_string"]));
    assert_eq!(store.get(&"input_string".to_string()), None);
}

#[test]
fn set_then_get_returns_written_string() {
    let mut store = new_store::<String>(&fields(&["input_string", "other"]));
    let field = "input_string".to_string();
    store.set(&field, String::from("Hello, world!"));
    assert_eq!(store.get(&field), Some(&String::from("Hello, world!")));
    // the untouched field stays unset
    assert_eq!(store.get(&"other".to_string()), None);
}

#[test]
fn set_then_get_returns_written_int() {
    let mut store = new_store::<u64>(&fields(&["counter"]));
    let field = "counter".to_string();
    store.set(&field, 41);
    store.set(&field, 42);
    // the most recent write wins
    assert_eq!(store.get(&field), Some(&42));
}

#[test]
fn durability_setter_is_a_distinct_path() {
    let mut store = new_store::<String>(&fields(&["input_string"]));
    let field = "input_string".to_string();
    store.set(&field, String::from("first"));
    assert_eq!(store.durability(&field), Some(Durability::Low));
    store.set_with_durability(&field, String::from("second"), Durability::High);
    assert_eq!(store.get(&field), Some(&String::from("second")));
    assert_eq!(store.durability(&field), Some(Durability::High));
}

#[test]
fn memo_recomputes_at_most_once() {
    let mut memo: MemoTable<usize> = MemoTable::new();
    let key = "length_query".to_string();
    let first = memo.fetch(&key, 13);
    let second = memo.fetch(&key, 99);
    assert!(first);
    assert!(!second);
    // the cached value is the first computation's
    assert_eq!(memo.cached(&key), Some(&13));
}

#[test]
fn transparent_needs_no_table() {
    // a transparent call computes directly; an empty memo table stays empty
    let memo: MemoTable<usize> = MemoTable::new();
    assert_eq!(memo.cached(&"anything".to_string()), None);
}

#[test]
fn completed_evaluation_keeps_its_value() {
    let r = resolve_cycle(&"length".to_string(), EvalOutcome::Completed(13usize), Some(0));
    assert_eq!(r.ok(), Some(13));
}
