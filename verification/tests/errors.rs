use db_ext_macro::assemble::query_group;
use db_ext_macro::ast::{Param, RawAttr, ReturnTy, TraitDef, TraitMethod};
use db_ext_macro::classify::ErrKind;

fn dir(name: &str, args: &str) -> RawAttr {
    RawAttr {
        segments: vec!["db_ext_macro".to_string(), name.to_string()],
        args: args.to_string(),
    }
}

fn method(name: &str, attrs: Vec<RawAttr>, params: Vec<Param>, output: ReturnTy) -> TraitMethod {
    TraitMethod { attrs, name: name.to_string(), has_receiver: true, params, output }
}

fn key_param() -> Param {
    Param { name: "key".to_string(), ty: "()".to_string() }
}

fn db_trait(name: &str, methods: Vec<TraitMethod>) -> TraitDef {
    TraitDef {
        name: name.to_string(),
        supertraits: "salsa::Database".to_string(),
        attrs: vec![],
        methods,
    }
}

#[test]
fn input_invoke_rejected() {
    let t = db_trait(
        "BadDatabase",
        vec![method(
            "input_string",
            vec![dir("input", ""), dir("invoke", "(elsewhere)")],
            vec![],
            ReturnTy::Path("String".to_string()),
        )],
    );
    let e = query_group(&t).err().expect("inputs cannot carry an invoke");
    assert_eq!(e.method, "input_string".to_string());
    assert!(matches!(e.kind, ErrKind::InputWithInvoke));
    assert_eq!(e.kind.message(), "inputs cannot have an invoke".to_string());
}

#[test]
fn unknown_attribute_rejected() {
    let t = db_trait(
        "InternedDB",
        vec![method(
            "intern_string",
            vec![dir("interned", "")],
            vec![Param { name: "data".to_string(), ty: "String".to_string() }],
            ReturnTy::Path("InternedStringId".to_string()),
        )],
    );
    let e = query_group(&t).err().expect("an unrecognized directive is a hard error");
    assert!(matches!(&e.kind, ErrKind::UnknownAttribute(n) if n == "interned"));
    assert_eq!(e.kind.message(), "unknown attribute `interned`".to_string());
}

#[test]
fn input_with_parameter_rejected() {
    let t = db_trait(
        "BadDatabase",
        vec![method(
            "input_string",
            vec![dir("input", "")],
            vec![key_param()],
            ReturnTy::Path("String".to_string()),
        )],
    );
    let e = query_group(&t).err().expect("inputs take no parameter");
    assert!(matches!(e.kind, ErrKind::InputWithParameter));
    assert_eq!(e.kind.message(), "input methods cannot have a parameter".to_string());
}

#[test]
fn missing_receiver_rejected() {
    let t = db_trait(
        "BadDatabase",
        vec![TraitMethod {
            attrs: vec![],
            name: "free_standing".to_string(),
            has_receiver: false,
            params: vec![key_param()],
            output: ReturnTy::Path("usize".to_string()),
        }],
    );
    let e = query_group(&t).err().expect("a receiver is mandatory");
    assert!(matches!(e.kind, ErrKind::ExpectedReceiver));
    assert_eq!(e.kind.message(), "expected a receiver".to_string());
}

#[test]
fn missing_return_type_rejected() {
    let t = db_trait(
        "BadDatabase",
        vec![method("fire_and_forget", vec![], vec![key_param()], ReturnTy::Unit)],
    );
    let e = query_group(&t).err().expect("a return type is mandatory");
    assert!(matches!(e.kind, ErrKind::ExpectedReturnType));
    assert_eq!(e.kind.message(), "expected a return type".to_string());
}

#[test]
fn two_parameters_rejected() {
    let t = db_trait(
        "BadDatabase",
        vec![method(
            "wide_query",
            vec![],
            vec![
                Param { name: "a".to_string(), ty: "u32".to_string() },
                Param { name: "b".to_string(), ty: "u32".to_string() },
            ],
            ReturnTy::Path("u32".to_string()),
        )],
    );
    let e = query_group(&t).err().expect("at most one parameter is supported");
    assert!(matches!(e.kind, ErrKind::TooManyParameters));
    assert_eq!(e.kind.message(), "methods cannot have more than one parameter".to_string());
}

#[test]
fn malformed_invoke_rejected() {
    let t = db_trait(
        "BadDatabase",
        vec![method(
            "length_query",
            vec![dir("invoke", "length")],
            vec![key_param()],
            ReturnTy::Path("usize".to_string()),
        )],
    );
    let e = query_group(&t).err().expect("the invoke argument must be parenthesized");
    assert!(matches!(&e.kind, ErrKind::MalformedAttributeArgument(n) if n == "invoke"));
    assert_eq!(e.kind.message(), "malformed argument for attribute `invoke`".to_string());
    assert_eq!(e.text(), "method `length_query`: malformed argument for attribute `invoke`".to_string());
}

#[test]
fn first_erroneous_method_wins() {
    let t = db_trait(
        "BadDatabase",
        vec![
            method("fine", vec![], vec![key_param()], ReturnTy::Path("usize".to_string())),
            method("broken_one", vec![dir("nonsense", "")], vec![], ReturnTy::Path("u8".to_string())),
            method("broken_two", vec![dir("input", "")], vec![key_param()], ReturnTy::Path("u8".to_string())),
        ],
    );
    let e = query_group(&t).err().expect("the trait has errors");
    assert_eq!(e.method, "broken_one".to_string());
    assert!(matches!(&e.kind, ErrKind::UnknownAttribute(n) if n == "nonsense"));
}

#[test]
fn input_takes_priority_over_transparent() {
    let t = db_trait(
        "MixedDatabase",
        vec![method(
            "both_marked",
            vec![dir("transparent", ""), dir("input", "")],
            vec![],
            ReturnTy::Path("String".to_string()),
        )],
    );
    let out = query_group(&t).expect("the trait expands");
    // the input directive wins, whatever the directive order
    let t2 = db_trait(
        "MixedDatabase",
        vec![method(
            "both_marked",
            vec![dir("input", ""), dir("transparent", "")],
            vec![],
            ReturnTy::Path("String".to_string()),
        )],
    );
    let out2 = query_group(&t2).expect("the trait expands");
    assert!(matches!(
        &out.impl_methods[0],
        db_ext_macro::emit::QueryEmit::Input(_)
    ));
    assert!(matches!(
        &out2.impl_methods[0],
        db_ext_macro::emit::QueryEmit::Input(_)
    ));
}

#[test]
fn directives_stripped_markers_kept() {
    let doc_attr = RawAttr { segments: vec!["doc".to_string()], args: " = \" a comment\"".to_string() };
    let t = db_trait(
        "HelloWorldDatabase",
        vec![method(
            "input_string",
            vec![doc_attr, dir("input", "")],
            vec![],
            ReturnTy::Path("String".to_string()),
        )],
    );
    let out = query_group(&t).expect("the trait expands");
    // the directive is stripped, the pass-through annotation stays
    assert_eq!(out.methods[0].attrs.len(), 1);
    assert_eq!(out.methods[0].attrs[0].segments, vec!["doc".to_string()]);
    // the trait itself gains the runtime's database marker
    let last = out.trait_attrs.last().expect("the marker was added");
    assert_eq!(last.segments, vec!["salsa".to_string(), "db".to_string()]);
    // classification decided the kind once: the method is an input
    assert!(matches!(
        &out.impl_methods[0],
        db_ext_macro::emit::QueryEmit::Input(_)
    ));
}

#[test]
fn directives_read_in_order() {
    // within one method the scan reads directives in order: the unknown
    // one comes first and decides the error
    let t = db_trait(
        "BadDatabase",
        vec![method(
            "mixed",
            vec![dir("bogus", ""), dir("input", "")],
            vec![key_param()],
            ReturnTy::Path("u8".to_string()),
        )],
    );
    let e = query_group(&t).err().expect("the unknown directive is seen first");
    assert!(matches!(&e.kind, ErrKind::UnknownAttribute(n) if n == "bogus"));
}

#[test]
fn spaced_invoke_argument_accepted() {
    let t = db_trait(
        "SpacedDb",
        vec![method(
            "value",
            vec![dir("invoke", "( helpers :: compute )")],
            vec![key_param()],
            ReturnTy::Path("u32".to_string()),
        )],
    );
    let out = query_group(&t).expect("the spaced argument parses");
    match &out.impl_methods[0] {
        db_ext_macro::emit::QueryEmit::TrackedComputation(e) => {
            assert_eq!(e.target, vec!["helpers".to_string(), "compute".to_string()]);
        }
        _ => panic!("value must be a tracked computation"),
    }
}
