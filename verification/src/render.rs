//! The code-emission back end: assembled declarations rendered as source
//! text.
//!
//! Every renderer is proved equal to a spec-level rendering function, so the
//! exact text of the expansion — the re-emitted trait, the backing record,
//! the bootstrap function, the blanket implementation and the setter
//! extension trait — is pinned down to the character.  Tokens are separated
//! by single spaces; an attribute's argument text is appended verbatim
//! behind its path.

use vstd::prelude::*;
use vstd::string::*;
use crate::ast::{AttrView, MethodView, ParamView, RawAttr, Param, ReturnTy, ReturnTyView,
    TraitMethod};
use crate::assemble::{FieldView, GeneratedOutput, OutputView, RecordField};
use crate::emit::{InputGetterEmit, InputGetterEmitView, QueryEmit, QueryEmitView, SetterEmit,
    SetterEmitView, SetterKind, SetterKindView, TrackedEmit, TrackedEmitView, TransparentEmit,
    TransparentEmitView};

verus! {

/// A path's text: its segments joined by `::`.
pub open spec fn spec_render_path(p: Seq<Seq<char>>) -> Seq<char>
    decreases p.len(),
{
    if p.len() == 0 {
        Seq::empty()
    } else if p.len() == 1 {
        p[0]
    } else {
        spec_render_path(p.drop_last()) + "::"@ + p.last()
    }
}

/// The non-receiver parameters of a signature, each as `, name: ty`.
pub open spec fn spec_render_params(ps: Seq<ParamView>) -> Seq<char>
    decreases ps.len(),
{
    if ps.len() == 0 {
        Seq::empty()
    } else {
        spec_render_params(ps.drop_last()) + ", "@ + ps.last().name + ": "@ + ps.last().ty
    }
}

/// The parameters as call arguments, each as `, name`.
pub open spec fn spec_render_arg_names(ps: Seq<ParamView>) -> Seq<char>
    decreases ps.len(),
{
    if ps.len() == 0 {
        Seq::empty()
    } else {
        spec_render_arg_names(ps.drop_last()) + ", "@ + ps.last().name
    }
}

/// The return type's text, with its arrow; nothing for a missing one.
pub open spec fn spec_render_ret(o: ReturnTyView) -> Seq<char> {
    match o {
        ReturnTyView::Unit => Seq::empty(),
        ReturnTyView::Path(t) => " -> "@ + t,
        ReturnTyView::Other(t) => " -> "@ + t,
    }
}

/// A getter signature: `fn name(&self, p: T) -> R`.
pub open spec fn spec_render_sig(name: Seq<char>, ps: Seq<ParamView>, o: ReturnTyView) -> Seq<
    char,
> {
    "fn "@ + name + "(&self"@ + spec_render_params(ps) + ")"@ + spec_render_ret(o)
}

/// One attribute: `#[path]` for a bare marker, with the argument text
/// appended verbatim otherwise, and a trailing space.
pub open spec fn spec_render_attr(a: AttrView) -> Seq<char> {
    "#["@ + spec_render_path(a.segments) + a.args + "] "@
}

/// An attribute list, in order.
pub open spec fn spec_render_attrs(attrs: Seq<AttrView>) -> Seq<char>
    decreases attrs.len(),
{
    if attrs.len() == 0 {
        Seq::empty()
    } else {
        spec_render_attrs(attrs.drop_last()) + spec_render_attr(attrs.last())
    }
}

/// The shim's annotation: the runtime's tracking marker, carrying the
/// eviction marker and the cycle-recovery handler when configured.
pub open spec fn spec_render_annotation(cycle: Option<Seq<Seq<char>>>, lru: bool) -> Seq<char> {
    match cycle {
        Some(p) => if lru {
            "#[salsa::tracked(lru, recovery_fn="@ + spec_render_path(p) + ")]"@
        } else {
            "#[salsa::tracked(recovery_fn="@ + spec_render_path(p) + ")]"@
        },
        None => if lru {
            "#[salsa::tracked(lru)]"@
        } else {
            "#[salsa::tracked]"@
        },
    }
}

/// A tracked computation's getter: the annotated memoized shim over the
/// database, the backing record and the method's parameters, delegating to
/// the target, then one call of the shim on the bootstrapped record.
pub open spec fn spec_render_tracked(e: TrackedEmitView) -> Seq<char> {
    spec_render_sig(e.name, e.params, e.output) + " { "@ + spec_render_annotation(e.cycle, e.lru)
        + " fn "@ + e.shim_name + "(db: &dyn "@ + e.trait_name + ", _input: "@ + e.record_name
        + spec_render_params(e.params) + ")"@ + spec_render_ret(e.output) + " { "@
        + spec_render_path(e.target) + "(db"@ + spec_render_arg_names(e.params) + ") } "@
        + e.shim_name + "(self, create_data(self)"@ + spec_render_arg_names(e.params) + ") }"@
}

/// An input's getter: fetch the record, unwrap the field of the method's
/// own name.
pub open spec fn spec_render_input_getter(e: InputGetterEmitView) -> Seq<char> {
    spec_render_sig(e.name, e.params, e.output)
        + " { let data = create_data(self); data."@ + e.name + "(self).unwrap() }"@
}

/// A transparent getter: one direct call of the target, nothing else.
pub open spec fn spec_render_transparent(e: TransparentEmitView) -> Seq<char> {
    spec_render_sig(e.name, e.params, e.output) + " { "@ + spec_render_path(e.target) + "(self"@
        + spec_render_arg_names(e.params) + ") }"@
}

/// One implementation fragment's text, by query kind, with a trailing
/// space.
pub open spec fn spec_render_emit(e: QueryEmitView) -> Seq<char> {
    match e {
        QueryEmitView::TrackedComputation(t) => spec_render_tracked(t) + " "@,
        QueryEmitView::Input(i) => spec_render_input_getter(i) + " "@,
        QueryEmitView::Transparent(t) => spec_render_transparent(t) + " "@,
    }
}

/// The blanket implementation's fragments, in order.
pub open spec fn spec_render_emits(es: Seq<QueryEmitView>) -> Seq<char>
    decreases es.len(),
{
    if es.len() == 0 {
        Seq::empty()
    } else {
        spec_render_emits(es.drop_last()) + spec_render_emit(es.last())
    }
}

/// The plain setter: `&mut self` and the value, routed through the record's
/// own setter, assigning `Some(value)`.
pub open spec fn spec_render_setter_plain(e: SetterEmitView) -> Seq<char> {
    "fn "@ + e.setter_name + "(&mut self, __value: "@ + e.value_ty
        + ") { use salsa::Setter; let data = create_data(self); data.set_"@ + e.field
        + "(self).to(Some(__value)); }"@
}

/// The durability-aware setter: like the plain one, with the durability
/// qualifier applied before the assignment.
pub open spec fn spec_render_setter_durability(e: SetterEmitView) -> Seq<char> {
    "fn "@ + e.setter_name + "(&mut self, __value: "@ + e.value_ty
        + ", durability: salsa::Durability) { use salsa::Setter; let data = create_data(self); data.set_"@
        + e.field + "(self).with_durability(durability).to(Some(__value)); }"@
}

/// One setter's text, by flavour, with a trailing space.
pub open spec fn spec_render_setter(s: SetterKindView) -> Seq<char> {
    match s {
        SetterKindView::Plain(e) => spec_render_setter_plain(e) + " "@,
        SetterKindView::WithDurability(e) => spec_render_setter_durability(e) + " "@,
    }
}

/// The setter extension trait's methods, in order.
pub open spec fn spec_render_setters(ss: Seq<SetterKindView>) -> Seq<char>
    decreases ss.len(),
{
    if ss.len() == 0 {
        Seq::empty()
    } else {
        spec_render_setters(ss.drop_last()) + spec_render_setter(ss.last())
    }
}

/// A re-emitted method declaration: kept annotations, signature, semicolon.
pub open spec fn spec_render_method_decl(m: MethodView) -> Seq<char> {
    spec_render_attrs(m.attrs) + spec_render_sig(m.name, m.params, m.output) + "; "@
}

/// The re-emitted method declarations, in order.
pub open spec fn spec_render_method_decls(ms: Seq<MethodView>) -> Seq<char>
    decreases ms.len(),
{
    if ms.len() == 0 {
        Seq::empty()
    } else {
        spec_render_method_decls(ms.drop_last()) + spec_render_method_decl(ms.last())
    }
}

/// One backing-record field: `name: Option<ty>, `.
pub open spec fn spec_render_field(f: FieldView) -> Seq<char> {
    f.name + ": Option<"@ + f.ty + ">, "@
}

/// The backing-record fields, in order.
pub open spec fn spec_render_fields(fs: Seq<FieldView>) -> Seq<char>
    decreases fs.len(),
{
    if fs.len() == 0 {
        Seq::empty()
    } else {
        spec_render_fields(fs.drop_last()) + spec_render_field(fs.last())
    }
}

/// One unset argument per field, for the bootstrap constructor call.
pub open spec fn spec_render_none_args(n: nat) -> Seq<char>
    decreases n,
{
    if n == 0 {
        Seq::empty()
    } else {
        spec_render_none_args((n - 1) as nat) + ", None"@
    }
}

/// The supertrait bounds, after a colon; nothing when the trait has none.
pub open spec fn spec_render_supertraits(s: Seq<char>) -> Seq<char> {
    if s.len() == 0 {
        Seq::empty()
    } else {
        ": "@ + s
    }
}

/// The re-emitted trait: its annotations (the runtime marker among them),
/// its name and supertraits, and its methods with the directives stripped.
pub open spec fn spec_render_trait(o: OutputView) -> Seq<char> {
    spec_render_attrs(o.trait_attrs) + "trait "@ + o.trait_name + spec_render_supertraits(
        o.supertraits,
    ) + " { "@ + spec_render_method_decls(o.methods) + "}"@
}

/// The backing record: one optional field per eligible method.
pub open spec fn spec_render_record(o: OutputView) -> Seq<char> {
    "#[salsa::input] struct "@ + o.record_name + " { "@ + spec_render_fields(o.fields) + "}"@
}

/// The memoized bootstrap function: creates the record with every field
/// unset, once per database.
pub open spec fn spec_render_bootstrap(o: OutputView) -> Seq<char> {
    "#[salsa::tracked] fn create_data(db: &dyn "@ + o.trait_name + ") -> "@ + o.record_name
        + " { "@ + o.record_name + "::new(db"@ + spec_render_none_args(o.fields.len()) + ") }"@
}

/// The blanket implementation of the trait for every conforming database.
pub open spec fn spec_render_trait_impl(o: OutputView) -> Seq<char> {
    "#[salsa::db] impl<DB> "@ + o.trait_name + " for DB where DB: salsa::Database { "@
        + spec_render_emits(o.impl_methods) + "}"@
}

/// The setter extension trait, with its setters as provided methods.
pub open spec fn spec_render_ext_trait(o: OutputView) -> Seq<char> {
    "trait "@ + o.setter_trait_name + ": "@ + o.trait_name + " where Self: Sized { "@
        + spec_render_setters(o.setters) + "}"@
}

/// The blanket implementation of the setter extension trait.
pub open spec fn spec_render_ext_impl(o: OutputView) -> Seq<char> {
    "use salsa::Setter; impl<DB> "@ + o.setter_trait_name + " for DB where DB: "@ + o.trait_name
        + " { }"@
}

/// The whole expansion, in the order it is emitted: trait, extension trait,
/// record, bootstrap, blanket implementation, extension implementation.
pub open spec fn spec_render_output(o: OutputView) -> Seq<char> {
    spec_render_trait(o) + " "@ + spec_render_ext_trait(o) + " "@ + spec_render_record(o) + " "@
        + spec_render_bootstrap(o) + " "@ + spec_render_trait_impl(o) + " "@
        + spec_render_ext_impl(o)
}

/// Appends a path's text.
#[verifier::loop_isolation(false)]
pub fn push_path(s: &mut String, p: &Vec<String>)
    ensures
        final(s)@ == old(s)@ + spec_render_path(p.deep_view()),
{
    if p.len() == 0 {
        assert(old(s)@ + spec_render_path(p.deep_view()) =~= old(s)@);
        return ;
    }
    s.append(p[0].as_str());
    let mut i: usize = 1;
    while i < p.len()
        invariant
            1 <= i <= p.len(),
            s@ == old(s)@ + spec_render_path(p.deep_view().take(i as int)),
        decreases p.len() - i,
    {
        assert(p.deep_view().take(i + 1).drop_last() =~= p.deep_view().take(i as int));
        s.append("::");
        s.append(p[i].as_str());
        i = i + 1;
    }
    assert(p.deep_view().take(p.deep_view().len() as int) =~= p.deep_view());
}

/// Appends the `, name: ty` parameter list.
#[verifier::loop_isolation(false)]
pub fn push_params(s: &mut String, ps: &Vec<Param>)
    ensures
        final(s)@ == old(s)@ + spec_render_params(ps.deep_view()),
{
    assert(old(s)@ + spec_render_params(ps.deep_view().take(0)) =~= old(s)@);
    let mut i: usize = 0;
    while i < ps.len()
        invariant
            i <= ps.len(),
            s@ == old(s)@ + spec_render_params(ps.deep_view().take(i as int)),
        decreases ps.len() - i,
    {
        assert(ps.deep_view().take(i + 1).drop_last() =~= ps.deep_view().take(i as int));
        s.append(", ");
        s.append(ps[i].name.as_str());
        s.append(": ");
        s.append(ps[i].ty.as_str());
        i = i + 1;
    }
    assert(ps.deep_view().take(ps.deep_view().len() as int) =~= ps.deep_view());
}

/// Appends the `, name` argument list.
#[verifier::loop_isolation(false)]
pub fn push_arg_names(s: &mut String, ps: &Vec<Param>)
    ensures
        final(s)@ == old(s)@ + spec_render_arg_names(ps.deep_view()),
{
    assert(old(s)@ + spec_render_arg_names(ps.deep_view().take(0)) =~= old(s)@);
    let mut i: usize = 0;
    while i < ps.len()
        invariant
            i <= ps.len(),
            s@ == old(s)@ + spec_render_arg_names(ps.deep_view().take(i as int)),
        decreases ps.len() - i,
    {
        assert(ps.deep_view().take(i + 1).drop_last() =~= ps.deep_view().take(i as int));
        s.append(", ");
        s.append(ps[i].name.as_str());
        i = i + 1;
    }
    assert(ps.deep_view().take(ps.deep_view().len() as int) =~= ps.deep_view());
}

/// Appends the return type, with its arrow.
pub fn push_ret(s: &mut String, o: &ReturnTy)
    ensures
        final(s)@ == old(s)@ + spec_render_ret(o@),
{
    match o {
        ReturnTy::Unit => {
            assert(old(s)@ + spec_render_ret(o@) =~= old(s)@);
        },
        ReturnTy::Path(t) => {
            s.append(" -> ");
            s.append(t.as_str());
        },
        ReturnTy::Other(t) => {
            s.append(" -> ");
            s.append(t.as_str());
        },
    }
}

/// Appends a getter signature.
pub fn push_sig(s: &mut String, name: &String, ps: &Vec<Param>, o: &ReturnTy)
    ensures
        final(s)@ == old(s)@ + spec_render_sig(name@, ps.deep_view(), o@),
{
    s.append("fn ");
    s.append(name.as_str());
    s.append("(&self");
    push_params(s, ps);
    s.append(")");
    push_ret(s, o);
}

/// Appends one attribute.
pub fn push_attr(s: &mut String, a: &RawAttr)
    ensures
        final(s)@ == old(s)@ + spec_render_attr(a@),
{
    s.append("#[");
    push_path(s, &a.segments);
    s.append(a.args.as_str());
    s.append("] ");
}

/// Appends an attribute list.
#[verifier::loop_isolation(false)]
pub fn push_attrs(s: &mut String, attrs: &Vec<RawAttr>)
    ensures
        final(s)@ == old(s)@ + spec_render_attrs(attrs.deep_view()),
{
    assert(old(s)@ + spec_render_attrs(attrs.deep_view().take(0)) =~= old(s)@);
    let mut i: usize = 0;
    while i < attrs.len()
        invariant
            i <= attrs.len(),
            s@ == old(s)@ + spec_render_attrs(attrs.deep_view().take(i as int)),
        decreases attrs.len() - i,
    {
        assert(attrs.deep_view().take(i + 1).drop_last() =~= attrs.deep_view().take(i as int));
        push_attr(s, &attrs[i]);
        i = i + 1;
    }
    assert(attrs.deep_view().take(attrs.deep_view().len() as int) =~= attrs.deep_view());
}

/// Appends the shim's annotation.
pub fn push_annotation(s: &mut String, cycle: &Option<Vec<String>>, lru: bool)
    ensures
        final(s)@ == old(s)@ + spec_render_annotation(cycle.deep_view(), lru),
{
    match cycle {
        Some(p) => {
            if lru {
                s.append("#[salsa::tracked(lru, recovery_fn=");
            } else {
                s.append("#[salsa::tracked(recovery_fn=");
            }
            push_path(s, p);
            s.append(")]");
        },
        None => {
            if lru {
                s.append("#[salsa::tracked(lru)]");
            } else {
                s.append("#[salsa::tracked]");
            }
        },
    }
}

/// Renders a tracked computation's getter.
pub fn render_tracked(e: &TrackedEmit) -> (r: String)
    ensures
        r@ == spec_render_tracked(e@),
{
    let mut s = String::new();
    assert(s@ + spec_render_sig(e.name@, e.params.deep_view(), e.output@) =~= spec_render_sig(
        e.name@,
        e.params.deep_view(),
        e.output@,
    ));
    push_sig(&mut s, &e.name, &e.params, &e.output);
    s.append(" { ");
    push_annotation(&mut s, &e.cycle, e.lru);
    s.append(" fn ");
    s.append(e.shim_name.as_str());
    s.append("(db: &dyn ");
    s.append(e.trait_name.as_str());
    s.append(", _input: ");
    s.append(e.record_name.as_str());
    push_params(&mut s, &e.params);
    s.append(")");
    push_ret(&mut s, &e.output);
    s.append(" { ");
    push_path(&mut s, &e.target);
    s.append("(db");
    push_arg_names(&mut s, &e.params);
    s.append(") } ");
    s.append(e.shim_name.as_str());
    s.append("(self, create_data(self)");
    push_arg_names(&mut s, &e.params);
    s.append(") }");
    s
}

/// Renders an input's getter.
pub fn render_input_getter(e: &InputGetterEmit) -> (r: String)
    ensures
        r@ == spec_render_input_getter(e@),
{
    let mut s = String::new();
    assert(s@ + spec_render_sig(e.name@, e.params.deep_view(), e.output@) =~= spec_render_sig(
        e.name@,
        e.params.deep_view(),
        e.output@,
    ));
    push_sig(&mut s, &e.name, &e.params, &e.output);
    s.append(" { let data = create_data(self); data.");
    s.append(e.name.as_str());
    s.append("(self).unwrap() }");
    s
}

/// Renders a transparent getter.
pub fn render_transparent(e: &TransparentEmit) -> (r: String)
    ensures
        r@ == spec_render_transparent(e@),
{
    let mut s = String::new();
    assert(s@ + spec_render_sig(e.name@, e.params.deep_view(), e.output@) =~= spec_render_sig(
        e.name@,
        e.params.deep_view(),
        e.output@,
    ));
    push_sig(&mut s, &e.name, &e.params, &e.output);
    s.append(" { ");
    push_path(&mut s, &e.target);
    s.append("(self");
    push_arg_names(&mut s, &e.params);
    s.append(") }");
    s
}

/// Renders one implementation fragment, with its trailing space.
pub fn render_emit(e: &QueryEmit) -> (r: String)
    ensures
        r@ == spec_render_emit(e@),
{
    let mut s = match e {
        QueryEmit::TrackedComputation(t) => render_tracked(t),
        QueryEmit::Input(i) => render_input_getter(i),
        QueryEmit::Transparent(t) => render_transparent(t),
    };
    s.append(" ");
    s
}

/// Renders a plain setter.
pub fn render_setter_plain(e: &SetterEmit) -> (r: String)
    ensures
        r@ == spec_render_setter_plain(e@),
{
    let mut s = "fn ".to_owned();
    s.append(e.setter_name.as_str());
    s.append("(&mut self, __value: ");
    s.append(e.value_ty.as_str());
    s.append(") { use salsa::Setter; let data = create_data(self); data.set_");
    s.append(e.field.as_str());
    s.append("(self).to(Some(__value)); }");
    s
}

/// Renders a durability-aware setter.
pub fn render_setter_durability(e: &SetterEmit) -> (r: String)
    ensures
        r@ == spec_render_setter_durability(e@),
{
    let mut s = "fn ".to_owned();
    s.append(e.setter_name.as_str());
    s.append("(&mut self, __value: ");
    s.append(e.value_ty.as_str());
    s.append(", durability: salsa::Durability) { use salsa::Setter; let data = create_data(self); data.set_");
    s.append(e.field.as_str());
    s.append("(self).with_durability(durability).to(Some(__value)); }");
    s
}

/// Renders one setter, with its trailing space.
pub fn render_setter(k: &SetterKind) -> (r: String)
    ensures
        r@ == spec_render_setter(k@),
{
    let mut s = match k {
        SetterKind::Plain(e) => render_setter_plain(e),
        SetterKind::WithDurability(e) => render_setter_durability(e),
    };
    s.append(" ");
    s
}

/// Appends one re-emitted method declaration.
pub fn push_method_decl(s: &mut String, m: &TraitMethod)
    ensures
        final(s)@ == old(s)@ + spec_render_method_decl(m@),
{
    push_attrs(s, &m.attrs);
    push_sig(s, &m.name, &m.params, &m.output);
    s.append("; ");
}

/// Renders the re-emitted trait.
#[verifier::loop_isolation(false)]
pub fn render_trait(o: &GeneratedOutput) -> (r: String)
    ensures
        r@ == spec_render_trait(o@),
{
    let mut s = String::new();
    assert(s@ + spec_render_attrs(o.trait_attrs.deep_view()) =~= spec_render_attrs(
        o.trait_attrs.deep_view(),
    ));
    push_attrs(&mut s, &o.trait_attrs);
    s.append("trait ");
    s.append(o.trait_name.as_str());
    if o.supertraits.as_str().unicode_len() > 0 {
        s.append(": ");
        s.append(o.supertraits.as_str());
    } else {
        assert(spec_render_supertraits(o.supertraits@) =~= Seq::<char>::empty());
        assert(s@ + spec_render_supertraits(o.supertraits@) =~= s@);
    }
    s.append(" { ");
    let ghost mid = s@;
    let mut i: usize = 0;
    assert(mid + spec_render_method_decls(o.methods.deep_view().take(0)) =~= mid);
    while i < o.methods.len()
        invariant
            i <= o.methods.len(),
            s@ == mid + spec_render_method_decls(o.methods.deep_view().take(i as int)),
        decreases o.methods.len() - i,
    {
        assert(o.methods.deep_view().take(i + 1).drop_last() =~= o.methods.deep_view().take(
            i as int,
        ));
        push_method_decl(&mut s, &o.methods[i]);
        i = i + 1;
    }
    assert(o.methods.deep_view().take(o.methods.deep_view().len() as int)
        =~= o.methods.deep_view());
    s.append("}");
    s
}

/// Renders the backing record.
#[verifier::loop_isolation(false)]
pub fn render_record(o: &GeneratedOutput) -> (r: String)
    ensures
        r@ == spec_render_record(o@),
{
    let mut s = "#[salsa::input] struct ".to_owned();
    s.append(o.record_name.as_str());
    s.append(" { ");
    let ghost mid = s@;
    let mut i: usize = 0;
    assert(mid + spec_render_fields(o.fields.deep_view().take(0)) =~= mid);
    while i < o.fields.len()
        invariant
            i <= o.fields.len(),
            s@ == mid + spec_render_fields(o.fields.deep_view().take(i as int)),
        decreases o.fields.len() - i,
    {
        assert(o.fields.deep_view().take(i + 1).drop_last() =~= o.fields.deep_view().take(
            i as int,
        ));
        s.append(o.fields[i].name.as_str());
        s.append(": Option<");
        s.append(o.fields[i].ty.as_str());
        s.append(">, ");
        i = i + 1;
    }
    assert(o.fields.deep_view().take(o.fields.deep_view().len() as int) =~= o.fields.deep_view());
    s.append("}");
    s
}

/// Renders the memoized bootstrap function.
#[verifier::loop_isolation(false)]
pub fn render_bootstrap(o: &GeneratedOutput) -> (r: String)
    ensures
        r@ == spec_render_bootstrap(o@),
{
    let mut s = "#[salsa::tracked] fn create_data(db: &dyn ".to_owned();
    s.append(o.trait_name.as_str());
    s.append(") -> ");
    s.append(o.record_name.as_str());
    s.append(" { ");
    s.append(o.record_name.as_str());
    s.append("::new(db");
    let ghost mid = s@;
    let mut i: usize = 0;
    assert(mid + spec_render_none_args(0) =~= mid);
    while i < o.fields.len()
        invariant
            i <= o.fields.len(),
            s@ == mid + spec_render_none_args(i as nat),
        decreases o.fields.len() - i,
    {
        s.append(", None");
        i = i + 1;
    }
    assert(o.fields.deep_view().len() == o.fields@.len());
    s.append(") }");
    s
}

/// Renders the blanket trait implementation.
#[verifier::loop_isolation(false)]
pub fn render_trait_impl(o: &GeneratedOutput) -> (r: String)
    ensures
        r@ == spec_render_trait_impl(o@),
{
    let mut s = "#[salsa::db] impl<DB> ".to_owned();
    s.append(o.trait_name.as_str());
    s.append(" for DB where DB: salsa::Database { ");
    let ghost mid = s@;
    let mut i: usize = 0;
    assert(mid + spec_render_emits(o.impl_methods.deep_view().take(0)) =~= mid);
    while i < o.impl_methods.len()
        invariant
            i <= o.impl_methods.len(),
            s@ == mid + spec_render_emits(o.impl_methods.deep_view().take(i as int)),
        decreases o.impl_methods.len() - i,
    {
        assert(o.impl_methods.deep_view().take(i + 1).drop_last()
            =~= o.impl_methods.deep_view().take(i as int));
        let frag = render_emit(&o.impl_methods[i]);
        s.append(frag.as_str());
        i = i + 1;
    }
    assert(o.impl_methods.deep_view().take(o.impl_methods.deep_view().len() as int)
        =~= o.impl_methods.deep_view());
    s.append("}");
    s
}

/// Renders the setter extension trait.
#[verifier::loop_isolation(false)]
pub fn render_ext_trait(o: &GeneratedOutput) -> (r: String)
    ensures
        r@ == spec_render_ext_trait(o@),
{
    let mut s = "trait ".to_owned();
    s.append(o.setter_trait_name.as_str());
    s.append(": ");
    s.append(o.trait_name.as_str());
    s.append(" where Self: Sized { ");
    let ghost mid = s@;
    let mut i: usize = 0;
    assert(mid + spec_render_setters(o.setters.deep_view().take(0)) =~= mid);
    while i < o.setters.len()
        invariant
            i <= o.setters.len(),
            s@ == mid + spec_render_setters(o.setters.deep_view().take(i as int)),
        decreases o.setters.len() - i,
    {
        assert(o.setters.deep_view().take(i + 1).drop_last() =~= o.setters.deep_view().take(
            i as int,
        ));
        let frag = render_setter(&o.setters[i]);
        s.append(frag.as_str());
        i = i + 1;
    }
    assert(o.setters.deep_view().take(o.setters.deep_view().len() as int)
        =~= o.setters.deep_view());
    s.append("}");
    s
}

/// Renders the blanket implementation of the setter extension trait.
pub fn render_ext_impl(o: &GeneratedOutput) -> (r: String)
    ensures
        r@ == spec_render_ext_impl(o@),
{
    let mut s = "use salsa::Setter; impl<DB> ".to_owned();
    s.append(o.setter_trait_name.as_str());
    s.append(" for DB where DB: ");
    s.append(o.trait_name.as_str());
    s.append(" { }");
    s
}

/// Renders the whole expansion as one piece of source text.
pub fn render_output(o: &GeneratedOutput) -> (r: String)
    ensures
        r@ == spec_render_output(o@),
{
    let mut s = render_trait(o);
    s.append(" ");
    let part = render_ext_trait(o);
    s.append(part.as_str());
    s.append(" ");
    let part = render_record(o);
    s.append(part.as_str());
    s.append(" ");
    let part = render_bootstrap(o);
    s.append(part.as_str());
    s.append(" ");
    let part = render_trait_impl(o);
    s.append(part.as_str());
    s.append(" ");
    let part = render_ext_impl(o);
    s.append(part.as_str());
    s
}

} // verus!
