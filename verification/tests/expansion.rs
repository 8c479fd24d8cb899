use db_ext_macro::assemble::query_group;
use db_ext_macro::ast::{Param, RawAttr, ReturnTy, TraitDef, TraitMethod};
use db_ext_macro::emit::{QueryEmit, SetterKind};
use db_ext_macro::store::{new_store, MemoTable};

fn dir(name: &str, args: &str) -> RawAttr {
    RawAttr {
        segments: vec!["db_ext_macro".to_string(), name.to_string()],
        args: args.to_string(),
    }
}

fn method(name: &str, attrs: Vec<RawAttr>, params: Vec<Param>, output: ReturnTy) -> TraitMethod {
    TraitMethod { attrs, name: name.to_string(), has_receiver: true, params, output }
}

fn key_param() -> Param {
    Param { name: "key".to_string(), ty: "()".to_string() }
}

fn db_trait(name: &str, methods: Vec<TraitMethod>) -> TraitDef {
    TraitDef {
        name: name.to_string(),
        supertraits: "salsa::Database".to_string(),
        attrs: vec![],
        methods,
    }
}

#[test]
fn parse_parses() {
    let t = db_trait(
        "HelloWorldDatabase",
        vec![
            method("input_string", vec![dir("input", "")], vec![], ReturnTy::Path("String".to_string())),
            method(
                "length_query",
                vec![dir("invoke", "(length)")],
                vec![key_param()],
                ReturnTy::Path("usize".to_string()),
            ),
            method(
                "lengthhhhhh",
                vec![dir("invoke", "(length2)")],
                vec![key_param()],
                ReturnTy::Path("usize".to_string()),
            ),
            method(
                "length3",
                vec![dir("transparent", "")],
                vec![key_param()],
                ReturnTy::Path("usize".to_string()),
            ),
            method(
                "length4",
                vec![dir("transparent", ""), dir("invoke", "(completely_different_length)")],
                vec![key_param()],
                ReturnTy::Path("usize".to_string()),
            ),
        ],
    );
    let out = query_group(&t).expect("the trait expands");

    // the invoke query delegates to `length`, through its own shim
    match &out.impl_methods[1] {
        QueryEmit::TrackedComputation(e) => {
            assert_eq!(e.target, vec!["length".to_string()]);
            assert_eq!(e.shim_name, "length_query_shim".to_string());
        }
        _ => panic!("length_query must be a tracked computation"),
    }

    // the generated code's runtime behaviour: set the input, derive the length
    let mut store = new_store::<String>(&out.fields);
    let input_field = "input_string".to_string();
    store.set(&input_field, String::from("Hello, world!"));
    let len = store.get(&input_field).expect("the input was set").len();
    let mut memo: MemoTable<usize> = MemoTable::new();
    memo.fetch(&"length_query".to_string(), len);
    assert_eq!(len, 13);
}

#[test]
fn unadorned_query() {
    let t = db_trait(
        "HelloWorldDatabase",
        vec![
            method("input_string", vec![dir("input", "")], vec![], ReturnTy::Path("String".to_string())),
            method("length_query", vec![], vec![key_param()], ReturnTy::Path("usize".to_string())),
        ],
    );
    let out = query_group(&t).expect("the trait expands");

    // an unadorned query is a tracked computation delegating to its own name
    match &out.impl_methods[1] {
        QueryEmit::TrackedComputation(e) => {
            assert_eq!(e.target, vec!["length_query".to_string()]);
            assert_eq!(e.shim_name, "length_query_shim".to_string());
            assert_eq!(e.cycle, None);
            assert!(!e.lru);
        }
        _ => panic!("length_query must be a tracked computation"),
    }

    let mut store = new_store::<String>(&out.fields);
    let input_field = "input_string".to_string();
    store.set(&input_field, String::from("Hello, world!"));
    let len = store.get(&input_field).expect("the input was set").len();
    assert_eq!(len, 13);
}

#[test]
fn input_with_no_params() {
    let t = db_trait(
        "HelloWorldDatabase",
        vec![
            method(
                "input_string_with_no_params",
                vec![dir("input", "")],
                vec![],
                ReturnTy::Path("String".to_string()),
            ),
            method(
                "length_query_with_no_params",
                vec![],
                vec![],
                ReturnTy::Path("usize".to_string()),
            ),
        ],
    );
    let out = query_group(&t).expect("the trait expands");
    assert_eq!(out.fields[0].name, "input_string_with_no_params".to_string());
    match &out.setters[0] {
        SetterKind::Plain(e) => {
            assert_eq!(e.setter_name, "set_input_string_with_no_params".to_string());
        }
        _ => panic!("the plain setter comes first"),
    }
    match &out.setters[1] {
        SetterKind::WithDurability(e) => {
            assert_eq!(e.setter_name, "set_input_string_with_no_params_with_durability".to_string());
        }
        _ => panic!("the durability-aware setter comes second"),
    }

    let mut store = new_store::<String>(&out.fields);
    let input_field = "input_string_with_no_params".to_string();
    store.set(&input_field, String::from("Hello, world!"));
    let len = store.get(&input_field).expect("the input was set").len();
    assert_eq!(len, 13);
}

#[test]
fn invoke_query() {
    let t = db_trait(
        "HelloWorldDatabase",
        vec![
            method("input_string", vec![dir("input", "")], vec![], ReturnTy::Path("String".to_string())),
            method(
                "invoke_length_query",
                vec![dir("invoke", "(invoke_length_query_actual)")],
                vec![key_param()],
                ReturnTy::Path("usize".to_string()),
            ),
        ],
    );
    let out = query_group(&t).expect("the trait expands");

    // the getter delegates to the named target, never to its own name
    match &out.impl_methods[1] {
        QueryEmit::TrackedComputation(e) => {
            assert_eq!(e.target, vec!["invoke_length_query_actual".to_string()]);
            assert_ne!(e.target, vec!["invoke_length_query".to_string()]);
        }
        _ => panic!("invoke_length_query must be a tracked computation"),
    }

    let mut store = new_store::<String>(&out.fields);
    let input_field = "input_string".to_string();
    store.set(&input_field, String::from("Hello, world!"));
    let len = store.get(&input_field).expect("the input was set").len();
    assert_eq!(len, 13);
}

#[test]
fn transparent() {
    let t = db_trait(
        "HelloWorldDatabase",
        vec![
            method("input_string", vec![dir("input", "")], vec![], ReturnTy::Path("String".to_string())),
            method(
                "transparent_length",
                vec![dir("transparent", "")],
                vec![key_param()],
                ReturnTy::Path("usize".to_string()),
            ),
        ],
    );
    let out = query_group(&t).expect("the trait expands");

    // a transparent getter is a direct call: no shim, no record, no caching
    match &out.impl_methods[1] {
        QueryEmit::Transparent(e) => {
            assert_eq!(e.target, vec!["transparent_length".to_string()]);
        }
        _ => panic!("transparent_length must be transparent"),
    }

    let mut store = new_store::<String>(&out.fields);
    let input_field = "input_string".to_string();
    store.set(&input_field, String::from("Hello, world!"));
    let len = store.get(&input_field).expect("the input was set").len();
    assert_eq!(len, 13);
}

#[test]
fn transparent_invoke() {
    let t = db_trait(
        "HelloWorldDatabase",
        vec![
            method("input_string", vec![dir("input", "")], vec![], ReturnTy::Path("String".to_string())),
            method(
                "transparent_and_invoke_length",
                vec![dir("transparent", ""), dir("invoke", "(transparent_and_invoke_length_actual)")],
                vec![key_param()],
                ReturnTy::Path("usize".to_string()),
            ),
        ],
    );
    let out = query_group(&t).expect("the trait expands");

    match &out.impl_methods[1] {
        QueryEmit::Transparent(e) => {
            assert_eq!(e.target, vec!["transparent_and_invoke_length_actual".to_string()]);
        }
        _ => panic!("transparent_and_invoke_length must be transparent"),
    }

    let mut store = new_store::<String>(&out.fields);
    let input_field = "input_string".to_string();
    store.set(&input_field, String::from("Hello, world!"));
    let len = store.get(&input_field).expect("the input was set").len();
    assert_eq!(len, 13);
}
