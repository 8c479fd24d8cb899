use db_ext_macro::ast::{Param, RawAttr, ReturnTy, TraitDef, TraitMethod};
use db_ext_macro::expand;

fn dir(name: &str, args: &str) -> RawAttr {
    RawAttr {
        segments: vec!["db_ext_macro".to_string(), name.to_string()],
        args: args.to_string(),
    }
}

fn method(name: &str, attrs: Vec<RawAttr>, params: Vec<Param>, output: ReturnTy) -> TraitMethod {
    TraitMethod { attrs, name: name.to_string(), has_receiver: true, params, output }
}

fn key_param() -> Param {
    Param { name: "key".to_string(), ty: "()".to_string() }
}

fn db_trait(name: &str, methods: Vec<TraitMethod>) -> TraitDef {
    TraitDef {
        name: name.to_string(),
        supertraits: "salsa::Database".to_string(),
        attrs: vec![],
        methods,
    }
}

#[test]
fn renders_exact_expansion() {
    let t = db_trait(
        "HelloDb",
        vec![
            method("input_string", vec![dir("input", "")], vec![], ReturnTy::Path("String".to_string())),
            method("length", vec![], vec![key_param()], ReturnTy::Path("usize".to_string())),
        ],
    );
    let text = expand(&t).expect("the trait expands");
    let expected = String::new()
        + "#[salsa::db] trait HelloDb: salsa::Database { "
        + "fn input_string(&self) -> String; "
        + "fn length(&self, key: ()) -> usize; } "
        + "trait HelloDbSetterExt: HelloDb where Self: Sized { "
        + "fn set_input_string(&mut self, __value: String) { use salsa::Setter; "
        + "let data = create_data(self); data.set_input_string(self).to(Some(__value)); } "
        + "fn set_input_string_with_durability(&mut self, __value: String, "
        + "durability: salsa::Durability) { use salsa::Setter; "
        + "let data = create_data(self); "
        + "data.set_input_string(self).with_durability(durability).to(Some(__value)); } } "
        + "#[salsa::input] struct HelloDbData { input_string: Option<String>, length: Option<usize>, } "
        + "#[salsa::tracked] fn create_data(db: &dyn HelloDb) -> HelloDbData { HelloDbData::new(db, None, None) } "
        + "#[salsa::db] impl<DB> HelloDb for DB where DB: salsa::Database { "
        + "fn input_string(&self) -> String { let data = create_data(self); data.input_string(self).unwrap() } "
        + "fn length(&self, key: ()) -> usize { #[salsa::tracked] "
        + "fn length_shim(db: &dyn HelloDb, _input: HelloDbData, key: ()) -> usize { length(db, key) } "
        + "length_shim(self, create_data(self), key) } } "
        + "use salsa::Setter; impl<DB> HelloDbSetterExt for DB where DB: HelloDb { }";
    assert_eq!(text, expected);
}

#[test]
fn renders_cycle_annotation() {
    let t = db_trait(
        "CycleDatabase",
        vec![method(
            "length",
            vec![dir("cycle", "(recover)")],
            vec![key_param()],
            ReturnTy::Path("usize".to_string()),
        )],
    );
    let text = expand(&t).expect("the trait expands");
    assert!(text.contains("#[salsa::tracked(recovery_fn=recover)]"));
    assert!(!text.contains("#[salsa::tracked] fn length_shim"));
}

#[test]
fn renders_lru_annotation() {
    let t = db_trait(
        "LruDB",
        vec![method(
            "length_query",
            vec![dir("lru", "")],
            vec![key_param()],
            ReturnTy::Path("usize".to_string()),
        )],
    );
    let text = expand(&t).expect("the trait expands");
    assert!(text.contains("#[salsa::tracked(lru)] fn length_query_shim"));
}

#[test]
fn renders_lru_cycle_annotation() {
    let t = db_trait(
        "LruDB",
        vec![method(
            "length_query",
            vec![dir("lru", ""), dir("cycle", "(recover)")],
            vec![key_param()],
            ReturnTy::Path("usize".to_string()),
        )],
    );
    let text = expand(&t).expect("the trait expands");
    assert!(text.contains("#[salsa::tracked(lru, recovery_fn=recover)]"));
}

#[test]
fn expand_reports_first_error() {
    let t = db_trait(
        "BadDatabase",
        vec![method(
            "input_string",
            vec![dir("input", ""), dir("invoke", "(elsewhere)")],
            vec![],
            ReturnTy::Path("String".to_string()),
        )],
    );
    let e = expand(&t).err().expect("inputs cannot carry an invoke");
    assert_eq!(e.text(), "method `input_string`: inputs cannot have an invoke".to_string());
}

#[test]
fn setter_names_no_collision() {
    // two inputs differing only in name: independent getter/setter pairs,
    // no generated name collides with another
    let t = db_trait(
        "TwoInputs",
        vec![
            method("first_value", vec![dir("input", "")], vec![], ReturnTy::Path("String".to_string())),
            method("second_value", vec![dir("input", "")], vec![], ReturnTy::Path("String".to_string())),
        ],
    );
    let out = db_ext_macro::assemble::query_group(&t).expect("the trait expands");
    let mut names = vec![
        out.methods[0].name.clone(),
        out.methods[1].name.clone(),
    ];
    for s in &out.setters {
        match s {
            db_ext_macro::emit::SetterKind::Plain(e) => names.push(e.setter_name.clone()),
            db_ext_macro::emit::SetterKind::WithDurability(e) => names.push(e.setter_name.clone()),
        }
    }
    assert_eq!(names.len(), 6);
    for i in 0..names.len() {
        for j in 0..names.len() {
            if i != j {
                assert_ne!(names[i], names[j]);
            }
        }
    }
}

#[test]
fn renders_trait_without_supertraits() {
    let t = TraitDef {
        name: "Plain".to_string(),
        supertraits: String::new(),
        attrs: vec![],
        methods: vec![method("value", vec![dir("input", "")], vec![], ReturnTy::Path("u32".to_string()))],
    };
    let text = expand(&t).expect("the trait expands");
    assert!(text.starts_with("#[salsa::db] trait Plain { "));
}

#[test]
fn name_value_attribute_passes_through() {
    let doc = RawAttr { segments: vec!["doc".to_string()], args: " = \"kept\"".to_string() };
    let t = db_trait(
        "DocDb",
        vec![method(
            "value",
            vec![doc, dir("input", "")],
            vec![],
            ReturnTy::Path("u32".to_string()),
        )],
    );
    let text = expand(&t).expect("the trait expands");
    assert!(text.contains("#[doc = \"kept\"] fn value(&self) -> u32; "));
    // the directive itself is gone from the re-emitted trait
    assert!(!text.contains("#[db_ext_macro::input]"));
}
