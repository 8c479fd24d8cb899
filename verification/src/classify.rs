//! The attribute classifier and the query classifier.
//!
//! A raw annotation is recognized as a directive iff its path has exactly
//! two segments and the first segment is the marker namespace
//! `db_ext_macro`; every other annotation passes through untouched.  The
//! recognized directives of a method, read in order, decide its query kind:
//! `input` wins over `transparent`, and everything else is a tracked
//! computation, optionally redirected (`invoke`), cycle-recovering
//! (`cycle`) or bounded (`lru`).  The combinations that the pipeline
//! rejects are each a distinct [`ErrKind`].

use vstd::prelude::*;
use vstd::string::*;
use crate::ast::{AttrView, MethodView, Param, ParamView, RawAttr, ReturnTy, ReturnTyView,
    TraitMethod, clone_params};
use crate::parse::{parse_paren_path, spec_parse_paren_path};
use crate::text::string_eq_lit;

verus! {

/// Spec-level mirror of [`DirAttr`].
pub struct DirAttrView {
    pub name: Seq<char>,
    pub args: Seq<char>,
}

/// A recognized directive before its argument is interpreted: the second
/// segment of its path, and its raw argument text.
pub struct DirAttr {
    pub name: String,
    pub args: String,
}

impl View for DirAttr {
    type V = DirAttrView;

    open spec fn view(&self) -> DirAttrView {
        DirAttrView { name: self.name@, args: self.args@ }
    }
}

impl DeepView for DirAttr {
    type V = DirAttrView;

    open spec fn deep_view(&self) -> DirAttrView {
        self@
    }
}

/// Spec-level mirror of [`ErrKind`].
pub enum ErrKindView {
    ExpectedReceiver,
    ExpectedReturnType,
    TooManyParameters,
    UnknownAttribute(Seq<char>),
    MalformedAttributeArgument(Seq<char>),
    InputWithParameter,
    InputWithInvoke,
}

/// Why a method cannot be expanded.
#[derive(Debug)]
pub enum ErrKind {
    /// The signature has no receiver.
    ExpectedReceiver,
    /// The signature has no return type.
    ExpectedReturnType,
    /// The signature has more than one non-receiver parameter.
    TooManyParameters,
    /// A directive whose name is not recognized; carries that name.
    UnknownAttribute(String),
    /// A directive whose argument does not parse as a parenthesized path;
    /// carries the directive's name.
    MalformedAttributeArgument(String),
    /// An `input` method with a non-receiver parameter.
    InputWithParameter,
    /// A method carrying both `input` and `invoke`.
    InputWithInvoke,
}

impl View for ErrKind {
    type V = ErrKindView;

    open spec fn view(&self) -> ErrKindView {
        match self {
            ErrKind::ExpectedReceiver => ErrKindView::ExpectedReceiver,
            ErrKind::ExpectedReturnType => ErrKindView::ExpectedReturnType,
            ErrKind::TooManyParameters => ErrKindView::TooManyParameters,
            ErrKind::UnknownAttribute(n) => ErrKindView::UnknownAttribute(n@),
            ErrKind::MalformedAttributeArgument(n) => ErrKindView::MalformedAttributeArgument(n@),
            ErrKind::InputWithParameter => ErrKindView::InputWithParameter,
            ErrKind::InputWithInvoke => ErrKindView::InputWithInvoke,
        }
    }
}

/// The diagnostic text of an error, at spec level.
pub open spec fn spec_message(e: ErrKindView) -> Seq<char> {
    match e {
        ErrKindView::ExpectedReceiver => "expected a receiver"@,
        ErrKindView::ExpectedReturnType => "expected a return type"@,
        ErrKindView::TooManyParameters => "methods cannot have more than one parameter"@,
        ErrKindView::UnknownAttribute(n) => "unknown attribute `"@ + n + "`"@,
        ErrKindView::MalformedAttributeArgument(n) => "malformed argument for attribute `"@ + n
            + "`"@,
        ErrKindView::InputWithParameter => "input methods cannot have a parameter"@,
        ErrKindView::InputWithInvoke => "inputs cannot have an invoke"@,
    }
}

impl ErrKind {
    /// The diagnostic text of this error.
    pub fn message(&self) -> (r: String)
        ensures
            r@ == spec_message(self@),
    {
        match self {
            ErrKind::ExpectedReceiver => "expected a receiver".to_owned(),
            ErrKind::ExpectedReturnType => "expected a return type".to_owned(),
            ErrKind::TooManyParameters => "methods cannot have more than one parameter".to_owned(),
            ErrKind::UnknownAttribute(n) => {
                let mut s = "unknown attribute `".to_owned();
                s.append(n.as_str());
                s.append("`");
                s
            },
            ErrKind::MalformedAttributeArgument(n) => {
                let mut s = "malformed argument for attribute `".to_owned();
                s.append(n.as_str());
                s.append("`");
                s
            },
            ErrKind::InputWithParameter => "input methods cannot have a parameter".to_owned(),
            ErrKind::InputWithInvoke => "inputs cannot have an invoke".to_owned(),
        }
    }
}

/// A raw annotation is a directive iff its path is exactly
/// `db_ext_macro::<name>`.
pub open spec fn spec_is_directive_attr(a: AttrView) -> bool {
    a.segments.len() == 2 && a.segments[0] == "db_ext_macro"@
}

/// Partitions a method's annotations into those kept untouched and the
/// recognized directives, both in order.
pub open spec fn spec_split_attrs(attrs: Seq<AttrView>) -> (Seq<AttrView>, Seq<DirAttrView>)
    decreases attrs.len(),
{
    if attrs.len() == 0 {
        (Seq::empty(), Seq::empty())
    } else {
        let r = spec_split_attrs(attrs.drop_last());
        let a = attrs.last();
        if spec_is_directive_attr(a) {
            (r.0, r.1.push(DirAttrView { name: a.segments[1], args: a.args }))
        } else {
            (r.0.push(a), r.1)
        }
    }
}

/// Exec form of [`spec_is_directive_attr`].
pub fn is_directive_attr(a: &RawAttr) -> (r: bool)
    ensures
        r == spec_is_directive_attr(a@),
{
    a.segments.len() == 2 && string_eq_lit(&a.segments[0], "db_ext_macro")
}

/// Partitions annotations into (kept untouched, recognized directives).
pub fn split_attrs(attrs: &Vec<RawAttr>) -> (r: (Vec<RawAttr>, Vec<DirAttr>))
    ensures
        (r.0.deep_view(), r.1.deep_view()) == spec_split_attrs(attrs.deep_view()),
{
    let mut kept: Vec<RawAttr> = Vec::new();
    let mut dirs: Vec<DirAttr> = Vec::new();
    let mut i: usize = 0;
    while i < attrs.len()
        invariant
            i <= attrs.len(),
            (kept.deep_view(), dirs.deep_view()) == spec_split_attrs(
                attrs.deep_view().take(i as int),
            ),
        decreases attrs.len() - i,
    {
        let ghost pre_kept = kept.deep_view();
        let ghost pre_dirs = dirs.deep_view();
        assert(attrs.deep_view().take(i + 1).drop_last() =~= attrs.deep_view().take(i as int));
        assert(attrs.deep_view().take(i + 1).last() == attrs.deep_view()[i as int]);
        if is_directive_attr(&attrs[i]) {
            let a = &attrs[i];
            let d = DirAttr { name: a.segments[1].clone(), args: a.args.clone() };
            assert(d@ == DirAttrView {
                name: attrs.deep_view()[i as int].segments[1],
                args: attrs.deep_view()[i as int].args,
            });
            dirs.push(d);
            assert(dirs.deep_view() =~= pre_dirs.push(
                DirAttrView {
                    name: attrs.deep_view()[i as int].segments[1],
                    args: attrs.deep_view()[i as int].args,
                },
            ));
        } else {
            let a = attrs[i].duplicate();
            kept.push(a);
            assert(kept.deep_view() =~= pre_kept.push(attrs.deep_view()[i as int]));
        }
        i = i + 1;
    }
    assert(attrs.deep_view().take(attrs.deep_view().len() as int) =~= attrs.deep_view());
    (kept, dirs)
}

/// Spec-level mirror of [`Scan`].
pub struct ScanView {
    pub has_input: bool,
    pub has_transparent: bool,
    pub lru: bool,
    pub invoke: Option<Seq<Seq<char>>>,
    pub cycle: Option<Seq<Seq<char>>>,
}

/// The running state of the directive scan over one method.
pub struct Scan {
    pub has_input: bool,
    pub has_transparent: bool,
    pub lru: bool,
    pub invoke: Option<Vec<String>>,
    pub cycle: Option<Vec<String>>,
}

impl View for Scan {
    type V = ScanView;

    open spec fn view(&self) -> ScanView {
        ScanView {
            has_input: self.has_input,
            has_transparent: self.has_transparent,
            lru: self.lru,
            invoke: self.invoke.deep_view(),
            cycle: self.cycle.deep_view(),
        }
    }
}

/// The scan state before any directive was read.
pub open spec fn spec_init_scan() -> ScanView {
    ScanView { has_input: false, has_transparent: false, lru: false, invoke: None, cycle: None }
}

/// Reads one directive into the scan state, or rejects it.
pub open spec fn spec_apply_directive(st: ScanView, d: DirAttrView, has_param: bool) -> Result<
    ScanView,
    ErrKindView,
> {
    if d.name == "input"@ {
        if has_param {
            Err(ErrKindView::InputWithParameter)
        } else {
            Ok(
                ScanView {
                    has_input: true,
                    has_transparent: st.has_transparent,
                    lru: st.lru,
                    invoke: st.invoke,
                    cycle: st.cycle,
                },
            )
        }
    } else if d.name == "transparent"@ {
        Ok(
            ScanView {
                has_input: st.has_input,
                has_transparent: true,
                lru: st.lru,
                invoke: st.invoke,
                cycle: st.cycle,
            },
        )
    } else if d.name == "lru"@ {
        Ok(
            ScanView {
                has_input: st.has_input,
                has_transparent: st.has_transparent,
                lru: true,
                invoke: st.invoke,
                cycle: st.cycle,
            },
        )
    } else if d.name == "invoke"@ {
        match spec_parse_paren_path(d.args) {
            Some(p) => Ok(
                ScanView {
                    has_input: st.has_input,
                    has_transparent: st.has_transparent,
                    lru: st.lru,
                    invoke: Some(p),
                    cycle: st.cycle,
                },
            ),
            None => Err(ErrKindView::MalformedAttributeArgument("invoke"@)),
        }
    } else if d.name == "cycle"@ {
        match spec_parse_paren_path(d.args) {
            Some(p) => Ok(
                ScanView {
                    has_input: st.has_input,
                    has_transparent: st.has_transparent,
                    lru: st.lru,
                    invoke: st.invoke,
                    cycle: Some(p),
                },
            ),
            None => Err(ErrKindView::MalformedAttributeArgument("cycle"@)),
        }
    } else {
        Err(ErrKindView::UnknownAttribute(d.name))
    }
}

/// Reads a directive list in order, threading the scan state; the first
/// rejected directive wins.
pub open spec fn spec_scan(dirs: Seq<DirAttrView>, has_param: bool, st: ScanView) -> Result<
    ScanView,
    ErrKindView,
>
    decreases dirs.len(),
{
    if dirs.len() == 0 {
        Ok(st)
    } else {
        match spec_apply_directive(st, dirs[0], has_param) {
            Err(e) => Err(e),
            Ok(st2) => spec_scan(dirs.drop_first(), has_param, st2),
        }
    }
}

/// Exec form of [`spec_apply_directive`]; consumes and returns the state.
pub fn apply_directive(st: Scan, d: &DirAttr, has_param: bool) -> (r: Result<Scan, ErrKind>)
    ensures
        match r {
            Ok(st2) => spec_apply_directive(st@, d@, has_param) == Ok::<ScanView, ErrKindView>(
                st2@,
            ),
            Err(e) => spec_apply_directive(st@, d@, has_param) == Err::<ScanView, ErrKindView>(e@),
        },
{
    if string_eq_lit(&d.name, "input") {
        if has_param {
            Err(ErrKind::InputWithParameter)
        } else {
            Ok(
                Scan {
                    has_input: true,
                    has_transparent: st.has_transparent,
                    lru: st.lru,
                    invoke: st.invoke,
                    cycle: st.cycle,
                },
            )
        }
    } else if string_eq_lit(&d.name, "transparent") {
        Ok(
            Scan {
                has_input: st.has_input,
                has_transparent: true,
                lru: st.lru,
                invoke: st.invoke,
                cycle: st.cycle,
            },
        )
    } else if string_eq_lit(&d.name, "lru") {
        Ok(
            Scan {
                has_input: st.has_input,
                has_transparent: st.has_transparent,
                lru: true,
                invoke: st.invoke,
                cycle: st.cycle,
            },
        )
    } else if string_eq_lit(&d.name, "invoke") {
        match parse_paren_path(d.args.as_str()) {
            Some(p) => Ok(
                Scan {
                    has_input: st.has_input,
                    has_transparent: st.has_transparent,
                    lru: st.lru,
                    invoke: Some(p),
                    cycle: st.cycle,
                },
            ),
            None => Err(ErrKind::MalformedAttributeArgument("invoke".to_owned())),
        }
    } else if string_eq_lit(&d.name, "cycle") {
        match parse_paren_path(d.args.as_str()) {
            Some(p) => Ok(
                Scan {
                    has_input: st.has_input,
                    has_transparent: st.has_transparent,
                    lru: st.lru,
                    invoke: st.invoke,
                    cycle: Some(p),
                },
            ),
            None => Err(ErrKind::MalformedAttributeArgument("cycle".to_owned())),
        }
    } else {
        Err(ErrKind::UnknownAttribute(d.name.clone()))
    }
}

/// Spec-level mirror of [`QueryKind`].
pub enum QueryKindView {
    Input,
    TrackedComputation { invoke: Option<Seq<Seq<char>>>, cycle: Option<Seq<Seq<char>>>, lru: bool },
    Transparent { invoke: Option<Seq<Seq<char>>> },
}

/// The query kind of a classified method, decided once and never revisited.
pub enum QueryKind {
    /// An externally supplied, settable value.
    Input,
    /// A memoized, dependency-tracked computation, optionally redirected,
    /// cycle-recovering, and bounded by least-recently-used eviction.
    TrackedComputation { invoke: Option<Vec<String>>, cycle: Option<Vec<String>>, lru: bool },
    /// An uncached passthrough call, optionally redirected.
    Transparent { invoke: Option<Vec<String>> },
}

impl View for QueryKind {
    type V = QueryKindView;

    open spec fn view(&self) -> QueryKindView {
        match self {
            QueryKind::Input => QueryKindView::Input,
            QueryKind::TrackedComputation { invoke, cycle, lru } => QueryKindView::TrackedComputation {
                invoke: invoke.deep_view(),
                cycle: cycle.deep_view(),
                lru: *lru,
            },
            QueryKind::Transparent { invoke } => QueryKindView::Transparent {
                invoke: invoke.deep_view(),
            },
        }
    }
}

/// The kind that a finished scan decides: `input` first, then
/// `transparent`, else a tracked computation.
pub open spec fn spec_kind_of(st: ScanView) -> QueryKindView {
    if st.has_input {
        QueryKindView::Input
    } else if st.has_transparent {
        QueryKindView::Transparent { invoke: st.invoke }
    } else {
        QueryKindView::TrackedComputation { invoke: st.invoke, cycle: st.cycle, lru: st.lru }
    }
}

/// Spec-level mirror of [`ClassifiedMethod`].
pub struct ClassifiedView {
    pub name: Seq<char>,
    pub params: Seq<ParamView>,
    pub output: ReturnTyView,
    pub kept_attrs: Seq<AttrView>,
    pub kind: QueryKindView,
}

/// A method after classification: its signature, the annotations kept
/// untouched, and its query kind.
pub struct ClassifiedMethod {
    pub name: String,
    pub params: Vec<Param>,
    pub output: ReturnTy,
    pub kept_attrs: Vec<RawAttr>,
    pub kind: QueryKind,
}

impl View for ClassifiedMethod {
    type V = ClassifiedView;

    open spec fn view(&self) -> ClassifiedView {
        ClassifiedView {
            name: self.name@,
            params: self.params.deep_view(),
            output: self.output@,
            kept_attrs: self.kept_attrs.deep_view(),
            kind: self.kind@,
        }
    }
}

impl DeepView for ClassifiedMethod {
    type V = ClassifiedView;

    open spec fn deep_view(&self) -> ClassifiedView {
        self@
    }
}

/// Classifies one method: structural checks first, then the directive scan
/// in order, then the kind decision.  Total over the method's view.
pub open spec fn spec_classify_method(m: MethodView) -> Result<ClassifiedView, ErrKindView> {
    if !m.has_receiver {
        Err(ErrKindView::ExpectedReceiver)
    } else if m.output is Unit {
        Err(ErrKindView::ExpectedReturnType)
    } else if m.params.len() > 1 {
        Err(ErrKindView::TooManyParameters)
    } else {
        let kd = spec_split_attrs(m.attrs);
        match spec_scan(kd.1, m.params.len() == 1, spec_init_scan()) {
            Err(e) => Err(e),
            Ok(st) => if st.has_input && st.invoke is Some {
                Err(ErrKindView::InputWithInvoke)
            } else {
                Ok(
                    ClassifiedView {
                        name: m.name,
                        params: m.params,
                        output: m.output,
                        kept_attrs: kd.0,
                        kind: spec_kind_of(st),
                    },
                )
            },
        }
    }
}

/// Exec form of [`spec_kind_of`]; consumes the scan state.
pub fn kind_of(st: Scan) -> (k: QueryKind)
    ensures
        k@ == spec_kind_of(st@),
{
    if st.has_input {
        QueryKind::Input
    } else if st.has_transparent {
        QueryKind::Transparent { invoke: st.invoke }
    } else {
        QueryKind::TrackedComputation { invoke: st.invoke, cycle: st.cycle, lru: st.lru }
    }
}

/// Classifies one method of the annotated trait.
#[verifier::loop_isolation(false)]
pub fn classify_method(m: &TraitMethod) -> (r: Result<ClassifiedMethod, ErrKind>)
    ensures
        match r {
            Ok(c) => spec_classify_method(m@) == Ok::<ClassifiedView, ErrKindView>(c@),
            Err(e) => spec_classify_method(m@) == Err::<ClassifiedView, ErrKindView>(e@),
        },
{
    if !m.has_receiver {
        return Err(ErrKind::ExpectedReceiver);
    }
    match &m.output {
        ReturnTy::Unit => {
            return Err(ErrKind::ExpectedReturnType);
        },
        _ => {},
    }
    if m.params.len() > 1 {
        return Err(ErrKind::TooManyParameters);
    }
    let has_param = m.params.len() == 1;
    let (kept, dirs) = split_attrs(&m.attrs);
    let mut st = Scan { has_input: false, has_transparent: false, lru: false, invoke: None, cycle: None };
    assert(st@ == spec_init_scan());
    let ghost all_dirs = dirs.deep_view();
    assert(all_dirs.skip(0) =~= all_dirs);
    let mut i: usize = 0;
    while i < dirs.len()
        invariant
            i <= dirs.len(),
            all_dirs == dirs.deep_view(),
            spec_scan(all_dirs, has_param, spec_init_scan()) == spec_scan(
                all_dirs.skip(i as int),
                has_param,
                st@,
            ),
        decreases dirs.len() - i,
    {
        assert(all_dirs.skip(i as int)[0] == all_dirs[i as int]);
        assert(all_dirs.skip(i as int).drop_first() =~= all_dirs.skip(i + 1));
        let ghost stv = st@;
        let d = &dirs[i];
        assert(d@ == all_dirs[i as int]);
        st = match apply_directive(st, d, has_param) {
            Ok(s) => s,
            Err(e) => {
                proof {
                    assert(spec_scan(all_dirs.skip(i as int), has_param, stv)
                        == Err::<ScanView, ErrKindView>(e@));
                }
                return Err(e);
            },
        };
        i = i + 1;
    }
    assert(all_dirs.skip(dirs.deep_view().len() as int) =~= Seq::<DirAttrView>::empty());
    if st.has_input && st.invoke.is_some() {
        return Err(ErrKind::InputWithInvoke);
    }
    let c = ClassifiedMethod {
        name: m.name.clone(),
        params: clone_params(&m.params),
        output: m.output.duplicate(),
        kept_attrs: kept,
        kind: kind_of(st),
    };
    Ok(c)
}

} // verus!
