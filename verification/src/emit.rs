//! Per-kind code emitters.
//!
//! Each classified method becomes one implementation fragment: an input
//! getter that unwraps its backing-record field, a tracked computation that
//! declares a memoized shim and calls it, or a transparent passthrough that
//! calls its target directly.  Each input additionally yields a plain
//! setter and a durability-aware setter.  A fragment holds every name the
//! renderer needs, each pinned by the emitter's contract.

use vstd::prelude::*;
use crate::ast::{Param, ParamView, ReturnTy, ReturnTyView, clone_params};
use crate::classify::{ClassifiedMethod, ClassifiedView, QueryKind, QueryKindView};
use crate::text::{clone_opt_strings, clone_strings, concat_str, prefix_str};

verus! {

/// The name of the memoized shim declared inside a tracked getter.
pub open spec fn spec_shim_name(name: Seq<char>) -> Seq<char> {
    name + "_shim"@
}

/// The name of the plain setter generated for an input.
pub open spec fn spec_setter_name(name: Seq<char>) -> Seq<char> {
    "set_"@ + name
}

/// The name of the durability-aware setter generated for an input.
pub open spec fn spec_durability_setter_name(name: Seq<char>) -> Seq<char> {
    "set_"@ + name + "_with_durability"@
}

/// The name of the backing-record type synthesized for a trait.
pub open spec fn spec_record_name(trait_name: Seq<char>) -> Seq<char> {
    trait_name + "Data"@
}

/// The name of the setter extension trait synthesized for a trait.
pub open spec fn spec_setter_trait_name(trait_name: Seq<char>) -> Seq<char> {
    trait_name + "SetterExt"@
}

/// The name of the memoized bootstrap function that produces the
/// backing-record instance.
pub open spec fn spec_bootstrap_name() -> Seq<char> {
    "create_data"@
}

/// Where a getter delegates: the `invoke` target when one was given, else a
/// free function of the method's own name.
pub open spec fn spec_target(invoke: Option<Seq<Seq<char>>>, name: Seq<char>) -> Seq<Seq<char>> {
    match invoke {
        Some(p) => p,
        None => seq![name],
    }
}

/// The text of a return type; an eligible path and any other type keep
/// their text, a missing return type has none.
pub open spec fn spec_output_text(o: ReturnTyView) -> Seq<char> {
    match o {
        ReturnTyView::Unit => Seq::empty(),
        ReturnTyView::Path(t) => t,
        ReturnTyView::Other(t) => t,
    }
}

/// Exec form of [`spec_shim_name`].
pub fn shim_name(name: &String) -> (r: String)
    ensures
        r@ == spec_shim_name(name@),
{
    concat_str(name, "_shim")
}

/// Exec form of [`spec_setter_name`].
pub fn setter_name(name: &String) -> (r: String)
    ensures
        r@ == spec_setter_name(name@),
{
    prefix_str("set_", name)
}

/// Exec form of [`spec_durability_setter_name`].
pub fn durability_setter_name(name: &String) -> (r: String)
    ensures
        r@ == spec_durability_setter_name(name@),
{
    let mut s = prefix_str("set_", name);
    s.append("_with_durability");
    s
}

/// Exec form of [`spec_record_name`].
pub fn record_name(trait_name: &String) -> (r: String)
    ensures
        r@ == spec_record_name(trait_name@),
{
    concat_str(trait_name, "Data")
}

/// Exec form of [`spec_setter_trait_name`].
pub fn setter_trait_name(trait_name: &String) -> (r: String)
    ensures
        r@ == spec_setter_trait_name(trait_name@),
{
    concat_str(trait_name, "SetterExt")
}

/// Exec form of [`spec_target`].
pub fn target_of(invoke: &Option<Vec<String>>, name: &String) -> (r: Vec<String>)
    ensures
        r.deep_view() == spec_target(invoke.deep_view(), name@),
{
    match invoke {
        Some(p) => clone_strings(p),
        None => {
            let mut r: Vec<String> = Vec::new();
            r.push(name.clone());
            assert(r.deep_view() =~= seq![name@]);
            r
        },
    }
}

/// Exec form of [`spec_output_text`].
pub fn output_text(o: &ReturnTy) -> (r: String)
    ensures
        r@ == spec_output_text(o@),
{
    match o {
        ReturnTy::Unit => {
            let r = String::new();
            r
        },
        ReturnTy::Path(t) => t.clone(),
        ReturnTy::Other(t) => t.clone(),
    }
}

/// Spec-level mirror of [`TrackedEmit`].
pub struct TrackedEmitView {
    pub trait_name: Seq<char>,
    pub record_name: Seq<char>,
    pub name: Seq<char>,
    pub params: Seq<ParamView>,
    pub output: ReturnTyView,
    pub shim_name: Seq<char>,
    pub target: Seq<Seq<char>>,
    pub cycle: Option<Seq<Seq<char>>>,
    pub lru: bool,
}

/// A tracked computation's getter: it declares the memoized shim
/// `<name>_shim(db, record, params...)`, annotated for the runtime's
/// dependency tracking (and, when configured, cycle recovery and bounded
/// storage), whose body delegates to the target; the getter calls the shim
/// with the bootstrapped record.
pub struct TrackedEmit {
    pub trait_name: String,
    pub record_name: String,
    pub name: String,
    pub params: Vec<Param>,
    pub output: ReturnTy,
    pub shim_name: String,
    pub target: Vec<String>,
    pub cycle: Option<Vec<String>>,
    pub lru: bool,
}

impl View for TrackedEmit {
    type V = TrackedEmitView;

    open spec fn view(&self) -> TrackedEmitView {
        TrackedEmitView {
            trait_name: self.trait_name@,
            record_name: self.record_name@,
            name: self.name@,
            params: self.params.deep_view(),
            output: self.output@,
            shim_name: self.shim_name@,
            target: self.target.deep_view(),
            cycle: self.cycle.deep_view(),
            lru: self.lru,
        }
    }
}

/// Spec-level mirror of [`InputGetterEmit`].
pub struct InputGetterEmitView {
    pub name: Seq<char>,
    pub params: Seq<ParamView>,
    pub output: ReturnTyView,
}

/// An input's getter: it fetches the backing record through the bootstrap
/// function and unwraps the optional field of the method's own name, so a
/// read before any write fails fatally in the runtime.
pub struct InputGetterEmit {
    pub name: String,
    pub params: Vec<Param>,
    pub output: ReturnTy,
}

impl View for InputGetterEmit {
    type V = InputGetterEmitView;

    open spec fn view(&self) -> InputGetterEmitView {
        InputGetterEmitView {
            name: self.name@,
            params: self.params.deep_view(),
            output: self.output@,
        }
    }
}

/// Spec-level mirror of [`TransparentEmit`].
pub struct TransparentEmitView {
    pub name: Seq<char>,
    pub params: Seq<ParamView>,
    pub output: ReturnTyView,
    pub target: Seq<Seq<char>>,
}

/// A transparent getter: a direct call to the target with no memoization
/// shim and no backing-record involvement.
pub struct TransparentEmit {
    pub name: String,
    pub params: Vec<Param>,
    pub output: ReturnTy,
    pub target: Vec<String>,
}

impl View for TransparentEmit {
    type V = TransparentEmitView;

    open spec fn view(&self) -> TransparentEmitView {
        TransparentEmitView {
            name: self.name@,
            params: self.params.deep_view(),
            output: self.output@,
            target: self.target.deep_view(),
        }
    }
}

/// Spec-level mirror of [`QueryEmit`].
pub enum QueryEmitView {
    TrackedComputation(TrackedEmitView),
    Input(InputGetterEmitView),
    Transparent(TransparentEmitView),
}

/// One method's implementation fragment, by query kind.
pub enum QueryEmit {
    TrackedComputation(TrackedEmit),
    Input(InputGetterEmit),
    Transparent(TransparentEmit),
}

impl View for QueryEmit {
    type V = QueryEmitView;

    open spec fn view(&self) -> QueryEmitView {
        match self {
            QueryEmit::TrackedComputation(e) => QueryEmitView::TrackedComputation(e@),
            QueryEmit::Input(e) => QueryEmitView::Input(e@),
            QueryEmit::Transparent(e) => QueryEmitView::Transparent(e@),
        }
    }
}

impl DeepView for QueryEmit {
    type V = QueryEmitView;

    open spec fn deep_view(&self) -> QueryEmitView {
        self@
    }
}

/// Spec-level mirror of [`SetterEmit`].
pub struct SetterEmitView {
    pub setter_name: Seq<char>,
    pub field: Seq<char>,
    pub value_ty: Seq<char>,
}

/// A setter generated for one input: the extension-trait method's name, the
/// backing-record field it assigns (the input's own name), and the value
/// type it takes (the input's return type).
pub struct SetterEmit {
    pub setter_name: String,
    pub field: String,
    pub value_ty: String,
}

impl View for SetterEmit {
    type V = SetterEmitView;

    open spec fn view(&self) -> SetterEmitView {
        SetterEmitView {
            setter_name: self.setter_name@,
            field: self.field@,
            value_ty: self.value_ty@,
        }
    }
}

/// Spec-level mirror of [`SetterKind`].
pub enum SetterKindView {
    Plain(SetterEmitView),
    WithDurability(SetterEmitView),
}

/// The two setter flavours of an input: the plain one assigns the value,
/// the durability-aware one takes the durability qualifier first.
pub enum SetterKind {
    Plain(SetterEmit),
    WithDurability(SetterEmit),
}

impl View for SetterKind {
    type V = SetterKindView;

    open spec fn view(&self) -> SetterKindView {
        match self {
            SetterKind::Plain(e) => SetterKindView::Plain(e@),
            SetterKind::WithDurability(e) => SetterKindView::WithDurability(e@),
        }
    }
}

impl DeepView for SetterKind {
    type V = SetterKindView;

    open spec fn deep_view(&self) -> SetterKindView {
        self@
    }
}

/// The implementation fragment of one classified method: a total match
/// over its query kind.
pub open spec fn spec_emit_method(trait_name: Seq<char>, c: ClassifiedView) -> QueryEmitView {
    match c.kind {
        QueryKindView::Input => QueryEmitView::Input(
            InputGetterEmitView { name: c.name, params: c.params, output: c.output },
        ),
        QueryKindView::TrackedComputation { invoke, cycle, lru } => QueryEmitView::TrackedComputation(
            TrackedEmitView {
                trait_name: trait_name,
                record_name: spec_record_name(trait_name),
                name: c.name,
                params: c.params,
                output: c.output,
                shim_name: spec_shim_name(c.name),
                target: spec_target(invoke, c.name),
                cycle: cycle,
                lru: lru,
            },
        ),
        QueryKindView::Transparent { invoke } => QueryEmitView::Transparent(
            TransparentEmitView {
                name: c.name,
                params: c.params,
                output: c.output,
                target: spec_target(invoke, c.name),
            },
        ),
    }
}

/// The setters of one classified method: the plain and the
/// durability-aware setter for an input, nothing otherwise.
pub open spec fn spec_setters_for(c: ClassifiedView) -> Seq<SetterKindView> {
    if c.kind is Input {
        seq![
            SetterKindView::Plain(
                SetterEmitView {
                    setter_name: spec_setter_name(c.name),
                    field: c.name,
                    value_ty: spec_output_text(c.output),
                },
            ),
            SetterKindView::WithDurability(
                SetterEmitView {
                    setter_name: spec_durability_setter_name(c.name),
                    field: c.name,
                    value_ty: spec_output_text(c.output),
                },
            ),
        ]
    } else {
        Seq::empty()
    }
}

/// Emits the implementation fragment of one classified method.
pub fn emit_method(trait_name: &String, c: &ClassifiedMethod) -> (r: QueryEmit)
    ensures
        r@ == spec_emit_method(trait_name@, c@),
{
    match &c.kind {
        QueryKind::Input => QueryEmit::Input(
            InputGetterEmit {
                name: c.name.clone(),
                params: clone_params(&c.params),
                output: c.output.duplicate(),
            },
        ),
        QueryKind::TrackedComputation { invoke, cycle, lru } => QueryEmit::TrackedComputation(
            TrackedEmit {
                trait_name: trait_name.clone(),
                record_name: record_name(trait_name),
                name: c.name.clone(),
                params: clone_params(&c.params),
                output: c.output.duplicate(),
                shim_name: shim_name(&c.name),
                target: target_of(invoke, &c.name),
                cycle: clone_opt_strings(cycle),
                lru: *lru,
            },
        ),
        QueryKind::Transparent { invoke } => QueryEmit::Transparent(
            TransparentEmit {
                name: c.name.clone(),
                params: clone_params(&c.params),
                output: c.output.duplicate(),
                target: target_of(invoke, &c.name),
            },
        ),
    }
}

/// Emits the setters of one classified method.
pub fn setters_for(c: &ClassifiedMethod) -> (r: Vec<SetterKind>)
    ensures
        r.deep_view() == spec_setters_for(c@),
{
    let mut r: Vec<SetterKind> = Vec::new();
    match &c.kind {
        QueryKind::Input => {
            r.push(
                SetterKind::Plain(
                    SetterEmit {
                        setter_name: setter_name(&c.name),
                        field: c.name.clone(),
                        value_ty: output_text(&c.output),
                    },
                ),
            );
            r.push(
                SetterKind::WithDurability(
                    SetterEmit {
                        setter_name: durability_setter_name(&c.name),
                        field: c.name.clone(),
                        value_ty: output_text(&c.output),
                    },
                ),
            );
            assert(r.deep_view() =~= spec_setters_for(c@));
        },
        _ => {
            assert(r.deep_view() =~= spec_setters_for(c@));
        },
    }
    r
}

} // verus!
