//! The backing-record synthesizer and the trait assembler.
//!
//! From the classified methods the assembler collects one optional-valued
//! record field per input or path-returning method (in declaration order),
//! re-emits the trait with the directives stripped from its methods and the
//! runtime's database marker added, and gathers the implementation
//! fragments and the setter extension trait.  [`query_group`] is the whole
//! pipeline: classification of every method in order — the first rejected
//! method aborts the expansion — followed by assembly.

use vstd::prelude::*;
use vstd::string::*;
use crate::ast::{AttrView, MethodView, RawAttr, TraitDef, TraitDefView, TraitMethod, clone_attrs,
    clone_params};
use crate::classify::{ClassifiedMethod, ClassifiedView, ErrKind, ErrKindView, classify_method,
    spec_classify_method, spec_message};
use crate::emit::{QueryEmit, QueryEmitView, SetterKind, SetterKindView, emit_method,
    output_text, record_name, setter_trait_name, setters_for, spec_emit_method, spec_output_text,
    spec_record_name, spec_setter_trait_name, spec_setters_for};

verus! {

/// Spec-level mirror of [`RecordField`].
pub struct FieldView {
    pub name: Seq<char>,
    pub ty: Seq<char>,
}

/// One field of the backing record: the method's name, and the type whose
/// optional form the field holds.
pub struct RecordField {
    pub name: String,
    pub ty: String,
}

impl View for RecordField {
    type V = FieldView;

    open spec fn view(&self) -> FieldView {
        FieldView { name: self.name@, ty: self.ty@ }
    }
}

impl DeepView for RecordField {
    type V = FieldView;

    open spec fn deep_view(&self) -> FieldView {
        self@
    }
}

/// A method gets a backing-record field iff it is an input or returns a
/// plain path type.
pub open spec fn spec_field_eligible(c: ClassifiedView) -> bool {
    c.kind is Input || c.output is Path
}

/// The backing record's fields, one per eligible method, in declaration
/// order.
pub open spec fn spec_record_fields(cs: Seq<ClassifiedView>) -> Seq<FieldView>
    decreases cs.len(),
{
    if cs.len() == 0 {
        Seq::empty()
    } else {
        let rest = spec_record_fields(cs.drop_last());
        let c = cs.last();
        if spec_field_eligible(c) {
            rest.push(FieldView { name: c.name, ty: spec_output_text(c.output) })
        } else {
            rest
        }
    }
}

/// A method as it is re-emitted: directives stripped, pass-through
/// annotations kept, signature unchanged.
pub open spec fn spec_strip_method(c: ClassifiedView) -> MethodView {
    MethodView {
        attrs: c.kept_attrs,
        name: c.name,
        has_receiver: true,
        params: c.params,
        output: c.output,
    }
}

/// The re-emitted methods, in declaration order.
pub open spec fn spec_stripped_methods(cs: Seq<ClassifiedView>) -> Seq<MethodView>
    decreases cs.len(),
{
    if cs.len() == 0 {
        Seq::empty()
    } else {
        spec_stripped_methods(cs.drop_last()).push(spec_strip_method(cs.last()))
    }
}

/// The implementation fragments, one per method, in declaration order.
pub open spec fn spec_impl_methods(trait_name: Seq<char>, cs: Seq<ClassifiedView>) -> Seq<
    QueryEmitView,
>
    decreases cs.len(),
{
    if cs.len() == 0 {
        Seq::empty()
    } else {
        spec_impl_methods(trait_name, cs.drop_last()).push(spec_emit_method(trait_name, cs.last()))
    }
}

/// The setter extension trait's methods: the setter pair of each input, in
/// declaration order.
pub open spec fn spec_all_setters(cs: Seq<ClassifiedView>) -> Seq<SetterKindView>
    decreases cs.len(),
{
    if cs.len() == 0 {
        Seq::empty()
    } else {
        spec_all_setters(cs.drop_last()) + spec_setters_for(cs.last())
    }
}

/// The runtime's database marker, added to the re-emitted trait.
pub open spec fn spec_db_attr() -> AttrView {
    AttrView { segments: seq!["salsa"@, "db"@], args: Seq::<char>::empty() }
}

/// Spec-level mirror of [`GeneratedOutput`].
pub struct OutputView {
    pub trait_name: Seq<char>,
    pub supertraits: Seq<char>,
    pub trait_attrs: Seq<AttrView>,
    pub methods: Seq<MethodView>,
    pub record_name: Seq<char>,
    pub fields: Seq<FieldView>,
    pub impl_methods: Seq<QueryEmitView>,
    pub setter_trait_name: Seq<char>,
    pub setters: Seq<SetterKindView>,
}

/// Everything the expansion produces: the re-emitted trait (directives
/// stripped, marker added), the backing record and its fields, the blanket
/// implementation's fragments, and the setter extension trait.
pub struct GeneratedOutput {
    pub trait_name: String,
    pub supertraits: String,
    pub trait_attrs: Vec<RawAttr>,
    pub methods: Vec<TraitMethod>,
    pub record_name: String,
    pub fields: Vec<RecordField>,
    pub impl_methods: Vec<QueryEmit>,
    pub setter_trait_name: String,
    pub setters: Vec<SetterKind>,
}

impl View for GeneratedOutput {
    type V = OutputView;

    open spec fn view(&self) -> OutputView {
        OutputView {
            trait_name: self.trait_name@,
            supertraits: self.supertraits@,
            trait_attrs: self.trait_attrs.deep_view(),
            methods: self.methods.deep_view(),
            record_name: self.record_name@,
            fields: self.fields.deep_view(),
            impl_methods: self.impl_methods.deep_view(),
            setter_trait_name: self.setter_trait_name@,
            setters: self.setters.deep_view(),
        }
    }
}

/// The assembled output of a trait whose methods all classified.
pub open spec fn spec_assemble(t: TraitDefView, cs: Seq<ClassifiedView>) -> OutputView {
    OutputView {
        trait_name: t.name,
        supertraits: t.supertraits,
        trait_attrs: t.attrs.push(spec_db_attr()),
        methods: spec_stripped_methods(cs),
        record_name: spec_record_name(t.name),
        fields: spec_record_fields(cs),
        impl_methods: spec_impl_methods(t.name, cs),
        setter_trait_name: spec_setter_trait_name(t.name),
        setters: spec_all_setters(cs),
    }
}

/// Spec-level mirror of [`GenError`].
pub struct GenErrorView {
    pub method: Seq<char>,
    pub kind: ErrKindView,
}

/// A classification error, located at the method that raised it.
#[derive(Debug)]
pub struct GenError {
    pub method: String,
    pub kind: ErrKind,
}

impl View for GenError {
    type V = GenErrorView;

    open spec fn view(&self) -> GenErrorView {
        GenErrorView { method: self.method@, kind: self.kind@ }
    }
}

/// The diagnostic text of a located error.
pub open spec fn spec_error_text(e: GenErrorView) -> Seq<char> {
    "method `"@ + e.method + "`: "@ + spec_message(e.kind)
}

impl GenError {
    /// The diagnostic text of this error.
    pub fn text(&self) -> (r: String)
        ensures
            r@ == spec_error_text(self@),
    {
        let mut s = "method `".to_owned();
        s.append(self.method.as_str());
        s.append("`: ");
        let msg = self.kind.message();
        s.append(msg.as_str());
        s
    }
}

/// Classifies every method in declaration order; the first rejected method
/// decides the error.
pub open spec fn spec_classify_all(ms: Seq<MethodView>) -> Result<Seq<ClassifiedView>, GenErrorView>
    decreases ms.len(),
{
    if ms.len() == 0 {
        Ok(Seq::empty())
    } else {
        match spec_classify_all(ms.drop_last()) {
            Err(e) => Err(e),
            Ok(cs) => match spec_classify_method(ms.last()) {
                Err(k) => Err(GenErrorView { method: ms.last().name, kind: k }),
                Ok(c) => Ok(cs.push(c)),
            },
        }
    }
}

/// The whole pipeline, at spec level: classify every method, then
/// assemble; any classification error replaces the entire output.
pub open spec fn spec_query_group(t: TraitDefView) -> Result<OutputView, GenErrorView> {
    match spec_classify_all(t.methods) {
        Err(e) => Err(e),
        Ok(cs) => Ok(spec_assemble(t, cs)),
    }
}

/// Collects the backing record's fields.
#[verifier::loop_isolation(false)]
pub fn record_fields(cs: &Vec<ClassifiedMethod>) -> (r: Vec<RecordField>)
    ensures
        r.deep_view() == spec_record_fields(cs.deep_view()),
{
    let mut r: Vec<RecordField> = Vec::new();
    let mut i: usize = 0;
    while i < cs.len()
        invariant
            i <= cs.len(),
            r.deep_view() == spec_record_fields(cs.deep_view().take(i as int)),
        decreases cs.len() - i,
    {
        let ghost pre = r.deep_view();
        assert(cs.deep_view().take(i + 1).drop_last() =~= cs.deep_view().take(i as int));
        assert(cs.deep_view().take(i + 1).last() == cs.deep_view()[i as int]);
        let c = &cs[i];
        let eligible = match (&c.kind, &c.output) {
            (crate::classify::QueryKind::Input, _) => true,
            (_, crate::ast::ReturnTy::Path(_)) => true,
            _ => false,
        };
        assert(eligible == spec_field_eligible(cs.deep_view()[i as int]));
        if eligible {
            let f = RecordField { name: c.name.clone(), ty: output_text(&c.output) };
            r.push(f);
            assert(r.deep_view() =~= pre.push(
                FieldView {
                    name: cs.deep_view()[i as int].name,
                    ty: spec_output_text(cs.deep_view()[i as int].output),
                },
            ));
        }
        i = i + 1;
    }
    assert(cs.deep_view().take(cs.deep_view().len() as int) =~= cs.deep_view());
    r
}

/// Re-emits the trait's methods with the directives stripped.
#[verifier::loop_isolation(false)]
pub fn stripped_methods(cs: &Vec<ClassifiedMethod>) -> (r: Vec<TraitMethod>)
    ensures
        r.deep_view() == spec_stripped_methods(cs.deep_view()),
{
    let mut r: Vec<TraitMethod> = Vec::new();
    let mut i: usize = 0;
    while i < cs.len()
        invariant
            i <= cs.len(),
            r.deep_view() == spec_stripped_methods(cs.deep_view().take(i as int)),
        decreases cs.len() - i,
    {
        let ghost pre = r.deep_view();
        assert(cs.deep_view().take(i + 1).drop_last() =~= cs.deep_view().take(i as int));
        assert(cs.deep_view().take(i + 1).last() == cs.deep_view()[i as int]);
        let c = &cs[i];
        let m = TraitMethod {
            attrs: clone_attrs(&c.kept_attrs),
            name: c.name.clone(),
            has_receiver: true,
            params: clone_params(&c.params),
            output: c.output.duplicate(),
        };
        assert(m@ == spec_strip_method(cs.deep_view()[i as int]));
        r.push(m);
        assert(r.deep_view() =~= pre.push(spec_strip_method(cs.deep_view()[i as int])));
        i = i + 1;
    }
    assert(cs.deep_view().take(cs.deep_view().len() as int) =~= cs.deep_view());
    r
}

/// Emits the implementation fragments of all methods.
#[verifier::loop_isolation(false)]
pub fn impl_methods(trait_name: &String, cs: &Vec<ClassifiedMethod>) -> (r: Vec<QueryEmit>)
    ensures
        r.deep_view() == spec_impl_methods(trait_name@, cs.deep_view()),
{
    let mut r: Vec<QueryEmit> = Vec::new();
    let mut i: usize = 0;
    while i < cs.len()
        invariant
            i <= cs.len(),
            r.deep_view() == spec_impl_methods(trait_name@, cs.deep_view().take(i as int)),
        decreases cs.len() - i,
    {
        let ghost pre = r.deep_view();
        assert(cs.deep_view().take(i + 1).drop_last() =~= cs.deep_view().take(i as int));
        assert(cs.deep_view().take(i + 1).last() == cs.deep_view()[i as int]);
        let e = emit_method(trait_name, &cs[i]);
        r.push(e);
        assert(r.deep_view() =~= pre.push(
            spec_emit_method(trait_name@, cs.deep_view()[i as int]),
        ));
        i = i + 1;
    }
    assert(cs.deep_view().take(cs.deep_view().len() as int) =~= cs.deep_view());
    r
}

/// Gathers the setter pair of every input.
#[verifier::loop_isolation(false)]
pub fn all_setters(cs: &Vec<ClassifiedMethod>) -> (r: Vec<SetterKind>)
    ensures
        r.deep_view() == spec_all_setters(cs.deep_view()),
{
    let mut r: Vec<SetterKind> = Vec::new();
    let mut i: usize = 0;
    while i < cs.len()
        invariant
            i <= cs.len(),
            r.deep_view() == spec_all_setters(cs.deep_view().take(i as int)),
        decreases cs.len() - i,
    {
        let ghost pre = r.deep_view();
        assert(cs.deep_view().take(i + 1).drop_last() =~= cs.deep_view().take(i as int));
        assert(cs.deep_view().take(i + 1).last() == cs.deep_view()[i as int]);
        let mut pair = setters_for(&cs[i]);
        let ghost pair_v = pair.deep_view();
        r.append(&mut pair);
        assert(r.deep_view() =~= pre + pair_v);
        i = i + 1;
    }
    assert(cs.deep_view().take(cs.deep_view().len() as int) =~= cs.deep_view());
    r
}

/// Classifies every method of the trait, in order.
#[verifier::loop_isolation(false)]
pub fn classify_all(t: &TraitDef) -> (r: Result<Vec<ClassifiedMethod>, GenError>)
    ensures
        match r {
            Ok(cs) => spec_classify_all(t@.methods) == Ok::<Seq<ClassifiedView>, GenErrorView>(
                cs.deep_view(),
            ),
            Err(e) => spec_classify_all(t@.methods) == Err::<Seq<ClassifiedView>, GenErrorView>(
                e@,
            ),
        },
{
    let mut cs: Vec<ClassifiedMethod> = Vec::new();
    assert(t@.methods.take(0) =~= Seq::<MethodView>::empty());
    assert(cs.deep_view() =~= Seq::<ClassifiedView>::empty());
    let mut i: usize = 0;
    while i < t.methods.len()
        invariant
            i <= t.methods.len(),
            spec_classify_all(t@.methods.take(i as int)) == Ok::<
                Seq<ClassifiedView>,
                GenErrorView,
            >(cs.deep_view()),
        decreases t.methods.len() - i,
    {
        let ghost pre = cs.deep_view();
        assert(t@.methods.take(i + 1).drop_last() =~= t@.methods.take(i as int));
        assert(t@.methods.take(i + 1).last() == t@.methods[i as int]);
        match classify_method(&t.methods[i]) {
            Ok(c) => {
                cs.push(c);
                assert(cs.deep_view() =~= pre.push(
                    spec_classify_method(t@.methods[i as int])->Ok_0,
                ));
            },
            Err(k) => {
                let e = GenError { method: t.methods[i].name.clone(), kind: k };
                proof {
                    assert(spec_classify_all(t@.methods.take(i + 1))
                        == Err::<Seq<ClassifiedView>, GenErrorView>(e@));
                    crate::assemble::lemma_classify_all_err_extends(t@.methods, i + 1);
                }
                return Err(e);
            },
        }
        i = i + 1;
    }
    assert(t@.methods.take(t@.methods.len() as int) =~= t@.methods);
    Ok(cs)
}

/// Once classification fails on a prefix, it fails identically on the whole
/// method list.
pub proof fn lemma_classify_all_err_extends(ms: Seq<MethodView>, n: int)
    requires
        0 <= n <= ms.len(),
        spec_classify_all(ms.take(n)) is Err,
    ensures
        spec_classify_all(ms) == spec_classify_all(ms.take(n)),
    decreases ms.len() - n,
{
    if n < ms.len() {
        assert(ms.take(n + 1).drop_last() =~= ms.take(n));
        lemma_classify_all_err_extends(ms, n + 1);
    } else {
        assert(ms.take(n) =~= ms);
    }
}

/// The whole pipeline: parse-side model in, assembled declarations out.
/// The first method that cannot be classified aborts the expansion, and no
/// partial output is produced.
pub fn query_group(t: &TraitDef) -> (r: Result<GeneratedOutput, GenError>)
    ensures
        match r {
            Ok(o) => spec_query_group(t@) == Ok::<OutputView, GenErrorView>(o@),
            Err(e) => spec_query_group(t@) == Err::<OutputView, GenErrorView>(e@),
        },
{
    let cs = match classify_all(t) {
        Ok(cs) => cs,
        Err(e) => {
            return Err(e);
        },
    };
    let mut trait_attrs = clone_attrs(&t.attrs);
    let mut db_segs: Vec<String> = Vec::new();
    db_segs.push("salsa".to_owned());
    db_segs.push("db".to_owned());
    assert(db_segs.deep_view() =~= seq!["salsa"@, "db"@]);
    let db_attr = RawAttr { segments: db_segs, args: String::new() };
    assert(db_attr@ == spec_db_attr());
    let ghost pre_attrs = trait_attrs.deep_view();
    trait_attrs.push(db_attr);
    assert(trait_attrs.deep_view() =~= pre_attrs.push(spec_db_attr()));
    let o = GeneratedOutput {
        trait_name: t.name.clone(),
        supertraits: t.supertraits.clone(),
        trait_attrs,
        methods: stripped_methods(&cs),
        record_name: record_name(&t.name),
        fields: record_fields(&cs),
        impl_methods: impl_methods(&t.name, &cs),
        setter_trait_name: setter_trait_name(&t.name),
        setters: all_setters(&cs),
    };
    assert(o@ == spec_assemble(t@, cs.deep_view()));
    Ok(o)
}

} // verus!
