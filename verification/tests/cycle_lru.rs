use db_ext_macro::assemble::query_group;
use db_ext_macro::ast::{Param, RawAttr, ReturnTy, TraitDef, TraitMethod};
use db_ext_macro::emit::QueryEmit;
use db_ext_macro::store::{new_store, resolve_cycle, EvalOutcome};

fn dir(name: &str, args: &str) -> RawAttr {
    RawAttr {
        segments: vec!["db_ext_macro".to_string(), name.to_string()],
        args: args.to_string(),
    }
}

fn method(name: &str, attrs: Vec<RawAttr>, params: Vec<Param>, output: ReturnTy) -> TraitMethod {
    TraitMethod { attrs, name: name.to_string(), has_receiver: true, params, output }
}

fn key_param() -> Param {
    Param { name: "key".to_string(), ty: "()".to_string() }
}

fn db_trait(name: &str, methods: Vec<TraitMethod>) -> TraitDef {
    TraitDef {
        name: name.to_string(),
        supertraits: "salsa::Database".to_string(),
        attrs: vec![],
        methods,
    }
}

#[test]
fn cycle_parses() {
    let t = db_trait(
        "CycleDatabase",
        vec![
            method("input_string", vec![dir("input", "")], vec![], ReturnTy::Path("String".to_string())),
            method(
                "length",
                vec![dir("cycle", "(recover)")],
                vec![key_param()],
                ReturnTy::Path("usize".to_string()),
            ),
        ],
    );
    let out = query_group(&t).expect("the trait expands");

    // the shim carries the recovery handler
    match &out.impl_methods[1] {
        QueryEmit::TrackedComputation(e) => {
            assert_eq!(e.cycle, Some(vec!["recover".to_string()]));
            assert!(!e.lru);
        }
        _ => panic!("length must be a tracked computation"),
    }

    let mut store = new_store::<String>(&out.fields);
    let input_field = "input_string".to_string();
    store.set(&input_field, String::from("Hello, world!"));
    let len = store.get(&input_field).expect("the input was set").len();
    let resolved = resolve_cycle(&"length".to_string(), EvalOutcome::Completed(len), Some(0));
    assert_eq!(resolved.ok(), Some(13));
}

#[test]
fn cycle_recovery_returns_recover_value() {
    // a computation that reads its own output transitively: the cycle is
    // detected, and the configured handler's result stands in for it
    let recovered = resolve_cycle(
        &"length".to_string(),
        EvalOutcome::<usize>::CycleDetected,
        Some(0),
    );
    assert_eq!(recovered.ok(), Some(0));
}

#[test]
fn cycle_without_recovery_fails() {
    let failed = resolve_cycle(
        &"length".to_string(),
        EvalOutcome::<usize>::CycleDetected,
        None,
    );
    assert!(failed.is_err());
    assert_eq!(failed.err().expect("it failed").query, "length".to_string());
}

#[test]
fn plain_lru() {
    let t = db_trait(
        "LruDB",
        vec![
            method("input_string", vec![dir("input", "")], vec![], ReturnTy::Path("String".to_string())),
            method(
                "length_query",
                vec![dir("lru", "")],
                vec![key_param()],
                ReturnTy::Path("usize".to_string()),
            ),
        ],
    );
    let out = query_group(&t).expect("the trait expands");

    match &out.impl_methods[1] {
        QueryEmit::TrackedComputation(e) => {
            assert!(e.lru);
            assert_eq!(e.cycle, None);
            assert_eq!(e.target, vec!["length_query".to_string()]);
            assert_eq!(e.shim_name, "length_query_shim".to_string());
        }
        _ => panic!("length_query must be a tracked computation"),
    }

    let mut store = new_store::<String>(&out.fields);
    let input_field = "input_string".to_string();
    store.set(&input_field, String::from("Hello, world!"));
    let len = store.get(&input_field).expect("the input was set").len();
    assert_eq!(len, 13);
}

#[test]
fn invoke_lru() {
    let t = db_trait(
        "LruDB",
        vec![
            method("input_string", vec![dir("input", "")], vec![], ReturnTy::Path("String".to_string())),
            method(
                "length_query_invoke",
                vec![dir("lru", ""), dir("invoke", "(invoked_query)")],
                vec![key_param()],
                ReturnTy::Path("usize".to_string()),
            ),
        ],
    );
    let out = query_group(&t).expect("the trait expands");

    match &out.impl_methods[1] {
        QueryEmit::TrackedComputation(e) => {
            assert!(e.lru);
            assert_eq!(e.target, vec!["invoked_query".to_string()]);
            assert_eq!(e.shim_name, "length_query_invoke_shim".to_string());
        }
        _ => panic!("length_query_invoke must be a tracked computation"),
    }

    let mut store = new_store::<String>(&out.fields);
    let input_field = "input_string".to_string();
    store.set(&input_field, String::from("Hello, world!"));
    let len = store.get(&input_field).expect("the input was set").len();
    assert_eq!(len, 13);
}
