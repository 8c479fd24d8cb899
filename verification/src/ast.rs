//! The syntactic model of an annotated trait declaration.
//!
//! An annotated trait arrives as a tree of plain values: each method carries
//! its raw annotations (path segments plus argument text), its parameter
//! list, and its return type, all as strings of source text.  Spec-level
//! mirror types (`*View`) carry the same data as sequences of characters;
//! every contract in the crate is stated over those views.

use vstd::prelude::*;

verus! {

/// Spec-level mirror of [`RawAttr`].
pub struct AttrView {
    pub segments: Seq<Seq<char>>,
    pub args: Seq<char>,
}

/// A raw annotation attached to a trait or one of its methods: the segments
/// of its path and the text of its argument tokens (empty for a bare marker,
/// the parenthesized group for list form, the right-hand side for name-value
/// form).
pub struct RawAttr {
    pub segments: Vec<String>,
    pub args: String,
}

impl View for RawAttr {
    type V = AttrView;

    open spec fn view(&self) -> AttrView {
        AttrView { segments: self.segments.deep_view(), args: self.args@ }
    }
}

impl DeepView for RawAttr {
    type V = AttrView;

    open spec fn deep_view(&self) -> AttrView {
        self@
    }
}

/// Spec-level mirror of [`Param`].
pub struct ParamView {
    pub name: Seq<char>,
    pub ty: Seq<char>,
}

/// A non-receiver parameter of a trait method: the text of its pattern and
/// the text of its type.
pub struct Param {
    pub name: String,
    pub ty: String,
}

impl View for Param {
    type V = ParamView;

    open spec fn view(&self) -> ParamView {
        ParamView { name: self.name@, ty: self.ty@ }
    }
}

impl DeepView for Param {
    type V = ParamView;

    open spec fn deep_view(&self) -> ParamView {
        self@
    }
}

/// Spec-level mirror of [`ReturnTy`].
pub enum ReturnTyView {
    /// No return type was written.
    Unit,
    /// A plain path type, eligible for storage in the backing record.
    Path(Seq<char>),
    /// Any other return type (reference, tuple, qualified path, ...); such a
    /// method is still expanded, but gets no backing-record field.
    Other(Seq<char>),
}

/// The return type of a trait method, as the signature analyzer sees it.
pub enum ReturnTy {
    Unit,
    Path(String),
    Other(String),
}

impl View for ReturnTy {
    type V = ReturnTyView;

    open spec fn view(&self) -> ReturnTyView {
        match self {
            ReturnTy::Unit => ReturnTyView::Unit,
            ReturnTy::Path(t) => ReturnTyView::Path(t@),
            ReturnTy::Other(t) => ReturnTyView::Other(t@),
        }
    }
}

/// Spec-level mirror of [`TraitMethod`].
pub struct MethodView {
    pub attrs: Seq<AttrView>,
    pub name: Seq<char>,
    pub has_receiver: bool,
    pub params: Seq<ParamView>,
    pub output: ReturnTyView,
}

/// One method of the annotated trait.
pub struct TraitMethod {
    pub attrs: Vec<RawAttr>,
    pub name: String,
    pub has_receiver: bool,
    pub params: Vec<Param>,
    pub output: ReturnTy,
}

impl View for TraitMethod {
    type V = MethodView;

    open spec fn view(&self) -> MethodView {
        MethodView {
            attrs: self.attrs.deep_view(),
            name: self.name@,
            has_receiver: self.has_receiver,
            params: self.params.deep_view(),
            output: self.output@,
        }
    }
}

impl DeepView for TraitMethod {
    type V = MethodView;

    open spec fn deep_view(&self) -> MethodView {
        self@
    }
}

impl RawAttr {
    /// Duplicates the attribute, contents preserved.
    pub fn duplicate(&self) -> (r: RawAttr)
        ensures
            r@ == self@,
    {
        let r = RawAttr {
            segments: crate::text::clone_strings(&self.segments),
            args: self.args.clone(),
        };
        assert(r@ =~= self@);
        r
    }
}

impl Param {
    /// Duplicates the parameter, contents preserved.
    pub fn duplicate(&self) -> (r: Param)
        ensures
            r@ == self@,
    {
        let r = Param { name: self.name.clone(), ty: self.ty.clone() };
        assert(r@ =~= self@);
        r
    }
}

impl ReturnTy {
    /// Duplicates the return type, contents preserved.
    pub fn duplicate(&self) -> (r: ReturnTy)
        ensures
            r@ == self@,
    {
        match self {
            ReturnTy::Unit => ReturnTy::Unit,
            ReturnTy::Path(t) => ReturnTy::Path(t.clone()),
            ReturnTy::Other(t) => ReturnTy::Other(t.clone()),
        }
    }
}

/// Duplicates a vector of attributes, contents preserved.
pub fn clone_attrs(v: &Vec<RawAttr>) -> (r: Vec<RawAttr>)
    ensures
        r.deep_view() == v.deep_view(),
{
    let mut r: Vec<RawAttr> = Vec::new();
    let mut i: usize = 0;
    while i < v.len()
        invariant
            i <= v.len(),
            r.deep_view() =~= v.deep_view().take(i as int),
        decreases v.len() - i,
    {
        let ghost pre = r.deep_view();
        let x = v[i].duplicate();
        assert(x@ == v.deep_view()[i as int]);
        r.push(x);
        assert(r.deep_view() =~= pre.push(v.deep_view()[i as int]));
        assert(r.deep_view() =~= v.deep_view().take(i + 1));
        i = i + 1;
    }
    assert(r.deep_view() =~= v.deep_view());
    r
}

/// Duplicates a vector of parameters, contents preserved.
pub fn clone_params(v: &Vec<Param>) -> (r: Vec<Param>)
    ensures
        r.deep_view() == v.deep_view(),
{
    let mut r: Vec<Param> = Vec::new();
    let mut i: usize = 0;
    while i < v.len()
        invariant
            i <= v.len(),
            r.deep_view() =~= v.deep_view().take(i as int),
        decreases v.len() - i,
    {
        let ghost pre = r.deep_view();
        let x = v[i].duplicate();
        assert(x@ == v.deep_view()[i as int]);
        r.push(x);
        assert(r.deep_view() =~= pre.push(v.deep_view()[i as int]));
        assert(r.deep_view() =~= v.deep_view().take(i + 1));
        i = i + 1;
    }
    assert(r.deep_view() =~= v.deep_view());
    r
}

/// Spec-level mirror of [`TraitDef`].
pub struct TraitDefView {
    pub name: Seq<char>,
    pub supertraits: Seq<char>,
    pub attrs: Seq<AttrView>,
    pub methods: Seq<MethodView>,
}

/// The annotated trait declaration: its name, the text of its supertrait
/// bounds (empty when it has none), its own annotations, and its methods.
pub struct TraitDef {
    pub name: String,
    pub supertraits: String,
    pub attrs: Vec<RawAttr>,
    pub methods: Vec<TraitMethod>,
}

impl View for TraitDef {
    type V = TraitDefView;

    open spec fn view(&self) -> TraitDefView {
        TraitDefView {
            name: self.name@,
            supertraits: self.supertraits@,
            attrs: self.attrs.deep_view(),
            methods: self.methods.deep_view(),
        }
    }
}

} // verus!
