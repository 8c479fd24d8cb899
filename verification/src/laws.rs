//! The laws of the expansion, stated once over whole traits and proved.
//!
//! Every law quantifies over an arbitrary annotated trait (and, where the
//! law is per-method, an arbitrary method of it): the shape of each input's
//! getter, setters and record field; where a getter with a redirect
//! delegates; what a transparent getter avoids; which directive
//! combinations are rejected; and how the modeled runtime answers reads,
//! writes and repeated memoized evaluations.

use vstd::prelude::*;
use crate::ast::{AttrView, MethodView, TraitDefView};
use crate::assemble::{FieldView, GenErrorView, spec_all_setters, spec_classify_all,
    spec_field_eligible, spec_impl_methods, spec_query_group, spec_record_fields,
    spec_strip_method, spec_stripped_methods};
use crate::classify::{ClassifiedView, DirAttrView, ErrKindView, QueryKindView, ScanView,
    spec_apply_directive, spec_classify_method, spec_init_scan, spec_is_directive_attr,
    spec_scan, spec_split_attrs};
use crate::parse::{ident_end, is_ident_char, is_ident_start_char, lemma_ident_end,
    lemma_ident_end_exact, lemma_ws_end, lemma_ws_end_at, spec_parse_paren_path, spec_parse_tail,
    ws_end};
use crate::render::spec_render_path;
use crate::emit::{InputGetterEmitView, QueryEmitView, SetterEmitView, SetterKindView,
    TrackedEmitView, TransparentEmitView, spec_durability_setter_name, spec_emit_method,
    spec_output_text, spec_record_name, spec_setter_name, spec_setters_for, spec_shim_name,
    spec_target};
use crate::store::{Durability, spec_fetch};

verus! {

/// When classification of a whole trait succeeds, it classifies exactly its
/// methods, in order.
pub proof fn lemma_classify_all_ok(ms: Seq<MethodView>)
    requires
        spec_classify_all(ms) is Ok,
    ensures
        spec_classify_all(ms)->Ok_0.len() == ms.len(),
        forall|i: int|
            0 <= i < ms.len() ==> spec_classify_method(#[trigger] ms[i]) == Ok::<
                ClassifiedView,
                ErrKindView,
            >(spec_classify_all(ms)->Ok_0[i]),
    decreases ms.len(),
{
    if ms.len() > 0 {
        lemma_classify_all_ok(ms.drop_last());
        assert(forall|i: int| 0 <= i < ms.len() - 1 ==> ms.drop_last()[i] == ms[i]);
    }
}

/// The blanket implementation holds one fragment per classified method, in
/// order, each emitted from its own classification.
pub proof fn lemma_impl_methods_index(tn: Seq<char>, cs: Seq<ClassifiedView>)
    ensures
        spec_impl_methods(tn, cs).len() == cs.len(),
        forall|i: int|
            0 <= i < cs.len() ==> spec_impl_methods(tn, cs)[i] == spec_emit_method(
                tn,
                #[trigger] cs[i],
            ),
    decreases cs.len(),
{
    if cs.len() > 0 {
        lemma_impl_methods_index(tn, cs.drop_last());
        assert(forall|i: int| 0 <= i < cs.len() - 1 ==> cs.drop_last()[i] == cs[i]);
    }
}

/// The re-emitted trait holds one stripped method per classified method,
/// in order.
pub proof fn lemma_stripped_methods_index(cs: Seq<ClassifiedView>)
    ensures
        spec_stripped_methods(cs).len() == cs.len(),
        forall|i: int|
            0 <= i < cs.len() ==> spec_stripped_methods(cs)[i] == spec_strip_method(
                #[trigger] cs[i],
            ),
    decreases cs.len(),
{
    if cs.len() > 0 {
        lemma_stripped_methods_index(cs.drop_last());
        assert(forall|i: int| 0 <= i < cs.len() - 1 ==> cs.drop_last()[i] == cs[i]);
    }
}

/// Every eligible method has its record field, named after the method.
pub proof fn lemma_record_fields_member(cs: Seq<ClassifiedView>, i: int)
    requires
        0 <= i < cs.len(),
        spec_field_eligible(cs[i]),
    ensures
        exists|j: int|
            0 <= j < spec_record_fields(cs).len() && spec_record_fields(cs)[j] == (FieldView {
                name: cs[i].name,
                ty: spec_output_text(cs[i].output),
            }),
    decreases cs.len(),
{
    let fs = spec_record_fields(cs);
    if i == cs.len() - 1 {
        assert(fs[fs.len() - 1] == (FieldView {
            name: cs[i].name,
            ty: spec_output_text(cs[i].output),
        }));
    } else {
        assert(cs.drop_last()[i] == cs[i]);
        lemma_record_fields_member(cs.drop_last(), i);
        let pre = spec_record_fields(cs.drop_last());
        let j = choose|j: int|
            0 <= j < pre.len() && pre[j] == (FieldView {
                name: cs[i].name,
                ty: spec_output_text(cs[i].output),
            });
        assert(fs[j] == pre[j]);
    }
}

/// Every input has its adjacent setter pair — the plain setter, then the
/// durability-aware one — in the setter extension trait.
pub proof fn lemma_setters_member(cs: Seq<ClassifiedView>, i: int)
    requires
        0 <= i < cs.len(),
        cs[i].kind is Input,
    ensures
        exists|j: int|
            #![trigger spec_all_setters(cs)[j]]
            0 <= j && j + 1 < spec_all_setters(cs).len() && spec_all_setters(cs)[j]
                == SetterKindView::Plain(
                SetterEmitView {
                    setter_name: spec_setter_name(cs[i].name),
                    field: cs[i].name,
                    value_ty: spec_output_text(cs[i].output),
                },
            ) && spec_all_setters(cs)[j + 1] == SetterKindView::WithDurability(
                SetterEmitView {
                    setter_name: spec_durability_setter_name(cs[i].name),
                    field: cs[i].name,
                    value_ty: spec_output_text(cs[i].output),
                },
            ),
    decreases cs.len(),
{
    let ss = spec_all_setters(cs);
    if i == cs.len() - 1 {
        let pre = spec_all_setters(cs.drop_last());
        assert(ss[pre.len() as int] == SetterKindView::Plain(
            SetterEmitView {
                setter_name: spec_setter_name(cs[i].name),
                field: cs[i].name,
                value_ty: spec_output_text(cs[i].output),
            },
        ));
        assert(ss[pre.len() as int + 1] == SetterKindView::WithDurability(
            SetterEmitView {
                setter_name: spec_durability_setter_name(cs[i].name),
                field: cs[i].name,
                value_ty: spec_output_text(cs[i].output),
            },
        ));
    } else {
        assert(cs.drop_last()[i] == cs[i]);
        lemma_setters_member(cs.drop_last(), i);
        let pre = spec_all_setters(cs.drop_last());
        let j = choose|j: int|
            #![trigger pre[j]]
            0 <= j && j + 1 < pre.len() && pre[j] == SetterKindView::Plain(
                SetterEmitView {
                    setter_name: spec_setter_name(cs[i].name),
                    field: cs[i].name,
                    value_ty: spec_output_text(cs[i].output),
                },
            ) && pre[j + 1] == SetterKindView::WithDurability(
                SetterEmitView {
                    setter_name: spec_durability_setter_name(cs[i].name),
                    field: cs[i].name,
                    value_ty: spec_output_text(cs[i].output),
                },
            );
        assert(ss[j] == pre[j]);
        assert(ss[j + 1] == pre[j + 1]);
    }
}

/// Law: an input method expands to a getter that unwraps the record field
/// of the method's own name, a record field of that name, and the adjacent
/// plain/durability setter pair addressing that same field.  The getter's
/// read of an unset field is the runtime's fatal unwrap; what a read
/// returns after a write is [`law_set_then_get`].
pub proof fn law_input_expansion(t: TraitDefView, cs: Seq<ClassifiedView>, i: int)
    requires
        spec_classify_all(t.methods) == Ok::<Seq<ClassifiedView>, GenErrorView>(cs),
        0 <= i < cs.len(),
        cs[i].kind is Input,
    ensures
        spec_query_group(t) is Ok,
        spec_query_group(t)->Ok_0.impl_methods[i] == QueryEmitView::Input(
            InputGetterEmitView { name: cs[i].name, params: cs[i].params, output: cs[i].output },
        ),
        exists|j: int|
            #![trigger spec_query_group(t)->Ok_0.fields[j]]
            0 <= j < spec_query_group(t)->Ok_0.fields.len() && spec_query_group(t)->Ok_0.fields[j]
                == (FieldView { name: cs[i].name, ty: spec_output_text(cs[i].output) }),
        exists|j: int|
            #![trigger spec_query_group(t)->Ok_0.setters[j]]
            0 <= j && j + 1 < spec_query_group(t)->Ok_0.setters.len() && spec_query_group(
                t,
            )->Ok_0.setters[j] == SetterKindView::Plain(
                SetterEmitView {
                    setter_name: spec_setter_name(cs[i].name),
                    field: cs[i].name,
                    value_ty: spec_output_text(cs[i].output),
                },
            ) && spec_query_group(t)->Ok_0.setters[j + 1] == SetterKindView::WithDurability(
                SetterEmitView {
                    setter_name: spec_durability_setter_name(cs[i].name),
                    field: cs[i].name,
                    value_ty: spec_output_text(cs[i].output),
                },
            ),
{
    lemma_impl_methods_index(t.name, cs);
    let o = spec_query_group(t)->Ok_0;
    assert(o.fields == spec_record_fields(cs));
    assert(o.setters == spec_all_setters(cs));
    lemma_record_fields_member(cs, i);
    let fv = FieldView { name: cs[i].name, ty: spec_output_text(cs[i].output) };
    let fj = choose|j: int|
        0 <= j < spec_record_fields(cs).len() && spec_record_fields(cs)[j] == fv;
    assert(o.fields[fj] == fv);
    lemma_setters_member(cs, i);
    let plain = SetterKindView::Plain(
        SetterEmitView {
            setter_name: spec_setter_name(cs[i].name),
            field: cs[i].name,
            value_ty: spec_output_text(cs[i].output),
        },
    );
    let durable = SetterKindView::WithDurability(
        SetterEmitView {
            setter_name: spec_durability_setter_name(cs[i].name),
            field: cs[i].name,
            value_ty: spec_output_text(cs[i].output),
        },
    );
    let sj = choose|j: int|
        #![trigger spec_all_setters(cs)[j]]
        0 <= j && j + 1 < spec_all_setters(cs).len() && spec_all_setters(cs)[j] == plain
            && spec_all_setters(cs)[j + 1] == durable;
    assert(o.setters[sj] == plain);
    assert(o.setters[sj + 1] == durable);
}

/// Law: a tracked computation expands to a getter that declares the
/// memoized shim `<name>_shim` over the backing record and delegates to the
/// `invoke` target when one was given — never to the method's own name in
/// that case — and to a free function of the method's own name otherwise;
/// the configured cycle-recovery handler and eviction marker are carried
/// onto the shim unchanged.
pub proof fn law_tracked_expansion(t: TraitDefView, cs: Seq<ClassifiedView>, i: int)
    requires
        spec_classify_all(t.methods) == Ok::<Seq<ClassifiedView>, GenErrorView>(cs),
        0 <= i < cs.len(),
        cs[i].kind is TrackedComputation,
    ensures
        spec_query_group(t) is Ok,
        cs[i].kind matches QueryKindView::TrackedComputation { invoke, cycle, lru }
            ==> spec_query_group(t)->Ok_0.impl_methods[i] == QueryEmitView::TrackedComputation(
            TrackedEmitView {
                trait_name: t.name,
                record_name: spec_record_name(t.name),
                name: cs[i].name,
                params: cs[i].params,
                output: cs[i].output,
                shim_name: spec_shim_name(cs[i].name),
                target: spec_target(invoke, cs[i].name),
                cycle: cycle,
                lru: lru,
            },
        ),
{
    lemma_impl_methods_index(t.name, cs);
}

/// Law: a transparent method expands to a direct call of its target — the
/// `invoke` target when one was given, else the method's own name — with no
/// memoization shim and no backing-record involvement: the fragment names
/// neither the record, nor the bootstrap function, nor a shim.
pub proof fn law_transparent_expansion(t: TraitDefView, cs: Seq<ClassifiedView>, i: int)
    requires
        spec_classify_all(t.methods) == Ok::<Seq<ClassifiedView>, GenErrorView>(cs),
        0 <= i < cs.len(),
        cs[i].kind is Transparent,
    ensures
        spec_query_group(t) is Ok,
        cs[i].kind matches QueryKindView::Transparent { invoke } ==> spec_query_group(
            t,
        )->Ok_0.impl_methods[i] == QueryEmitView::Transparent(
            TransparentEmitView {
                name: cs[i].name,
                params: cs[i].params,
                output: cs[i].output,
                target: spec_target(invoke, cs[i].name),
            },
        ),
{
    lemma_impl_methods_index(t.name, cs);
}

/// A method carries a directive of the given name.
pub open spec fn spec_has_directive(m: MethodView, name: Seq<char>) -> bool {
    exists|i: int|
        0 <= i < m.attrs.len() && spec_is_directive_attr(#[trigger] m.attrs[i])
            && m.attrs[i].segments[1] == name
}

/// The attribute classifier keeps every directive, under its name.
proof fn lemma_split_carries_directive(attrs: Seq<AttrView>, name: Seq<char>)
    requires
        exists|i: int|
            0 <= i < attrs.len() && spec_is_directive_attr(#[trigger] attrs[i])
                && attrs[i].segments[1] == name,
    ensures
        exists|j: int|
            0 <= j < spec_split_attrs(attrs).1.len() && #[trigger] spec_split_attrs(
                attrs,
            ).1[j].name == name,
    decreases attrs.len(),
{
    let i = choose|i: int|
        0 <= i < attrs.len() && spec_is_directive_attr(#[trigger] attrs[i])
            && attrs[i].segments[1] == name;
    let dirs = spec_split_attrs(attrs).1;
    if i == attrs.len() - 1 {
        assert(dirs[dirs.len() - 1].name == name);
    } else {
        assert(attrs.drop_last()[i] == attrs[i]);
        lemma_split_carries_directive(attrs.drop_last(), name);
        let pre = spec_split_attrs(attrs.drop_last()).1;
        let j = choose|j: int| 0 <= j < pre.len() && #[trigger] pre[j].name == name;
        assert(dirs[j].name == name);
    }
}

/// The scan never forgets that it saw `input`, nor a recorded redirect.
proof fn lemma_scan_monotone(dirs: Seq<DirAttrView>, has_param: bool, st: ScanView)
    requires
        spec_scan(dirs, has_param, st) is Ok,
    ensures
        st.has_input ==> spec_scan(dirs, has_param, st)->Ok_0.has_input,
        st.invoke is Some ==> spec_scan(dirs, has_param, st)->Ok_0.invoke is Some,
    decreases dirs.len(),
{
    if dirs.len() > 0 {
        let st2 = spec_apply_directive(st, dirs[0], has_param)->Ok_0;
        lemma_scan_monotone(dirs.drop_first(), has_param, st2);
    }
}

/// A scan that saw an `input` directive ends with `has_input`.
proof fn lemma_scan_input(dirs: Seq<DirAttrView>, has_param: bool, st: ScanView)
    requires
        spec_scan(dirs, has_param, st) is Ok,
        exists|j: int| 0 <= j < dirs.len() && #[trigger] dirs[j].name == "input"@,
    ensures
        spec_scan(dirs, has_param, st)->Ok_0.has_input,
    decreases dirs.len(),
{
    let j = choose|j: int| 0 <= j < dirs.len() && #[trigger] dirs[j].name == "input"@;
    let st2 = spec_apply_directive(st, dirs[0], has_param)->Ok_0;
    if j == 0 {
        assert(st2.has_input);
        lemma_scan_monotone(dirs.drop_first(), has_param, st2);
    } else {
        assert(dirs.drop_first()[j - 1].name == "input"@);
        lemma_scan_input(dirs.drop_first(), has_param, st2);
    }
}

/// A scan that saw an `invoke` directive ends with a recorded redirect.
proof fn lemma_scan_invoke(dirs: Seq<DirAttrView>, has_param: bool, st: ScanView)
    requires
        spec_scan(dirs, has_param, st) is Ok,
        exists|j: int| 0 <= j < dirs.len() && #[trigger] dirs[j].name == "invoke"@,
    ensures
        spec_scan(dirs, has_param, st)->Ok_0.invoke is Some,
    decreases dirs.len(),
{
    reveal_strlit("invoke");
    reveal_strlit("input");
    reveal_strlit("transparent");
    reveal_strlit("lru");
    assert("invoke"@.len() == 6);
    assert("input"@.len() == 5);
    assert("transparent"@.len() == 11);
    assert("lru"@.len() == 3);
    let j = choose|j: int| 0 <= j < dirs.len() && #[trigger] dirs[j].name == "invoke"@;
    let st2 = spec_apply_directive(st, dirs[0], has_param)->Ok_0;
    if j == 0 {
        assert(dirs[0].name != "input"@);
        assert(dirs[0].name != "transparent"@);
        assert(dirs[0].name != "lru"@);
        assert(st2.invoke is Some);
        lemma_scan_monotone(dirs.drop_first(), has_param, st2);
    } else {
        assert(dirs.drop_first()[j - 1].name == "invoke"@);
        lemma_scan_invoke(dirs.drop_first(), has_param, st2);
    }
}

/// A method that cannot be classified fails the whole trait.
proof fn lemma_classify_all_err_of_method(ms: Seq<MethodView>, i: int)
    requires
        0 <= i < ms.len(),
        spec_classify_method(ms[i]) is Err,
    ensures
        spec_classify_all(ms) is Err,
    decreases ms.len(),
{
    if i < ms.len() - 1 {
        assert(ms.drop_last()[i] == ms[i]);
        lemma_classify_all_err_of_method(ms.drop_last(), i);
    }
}

/// Law: a method carrying both the `input` and the `invoke` directive is
/// rejected — whatever else it carries, the whole expansion is replaced by
/// an error.
pub proof fn law_input_invoke_rejected(t: TraitDefView, i: int)
    requires
        0 <= i < t.methods.len(),
        spec_has_directive(t.methods[i], "input"@),
        spec_has_directive(t.methods[i], "invoke"@),
    ensures
        spec_query_group(t) is Err,
{
    let m = t.methods[i];
    if m.has_receiver && !(m.output is Unit) && m.params.len() <= 1 {
        let kd = spec_split_attrs(m.attrs);
        lemma_split_carries_directive(m.attrs, "input"@);
        lemma_split_carries_directive(m.attrs, "invoke"@);
        match spec_scan(kd.1, m.params.len() == 1, spec_init_scan()) {
            Err(e) => {},
            Ok(st) => {
                lemma_scan_input(kd.1, m.params.len() == 1, spec_init_scan());
                lemma_scan_invoke(kd.1, m.params.len() == 1, spec_init_scan());
            },
        }
    }
    assert(spec_classify_method(m) is Err);
    lemma_classify_all_err_of_method(t.methods, i);
}

/// Law: across two evaluations of the same memoized key with unchanged
/// inputs, at most one recomputation happens — the second evaluation is
/// always answered from the table, whatever it would have computed.  (A
/// transparent call touches no such table at all: its fragment, by
/// [`law_transparent_expansion`], involves no shim and no record.)
pub proof fn law_memo_recompute_once<V>(m0: Map<Seq<char>, V>, k: Seq<char>, v1: V, v2: V)
    ensures
        !spec_fetch(spec_fetch(m0, k, v1).0, k, v2).1,
        spec_fetch(spec_fetch(m0, k, v1).0, k, v2).0 == spec_fetch(m0, k, v1).0,
        spec_fetch(spec_fetch(m0, k, v1).0, k, v2).0[k] == if m0.contains_key(k) {
            m0[k]
        } else {
            v1
        },
{
}

/// Law: setting an input and immediately reading it, with no intervening
/// write, returns exactly the written value — for every value type, and
/// whichever setter (plain or durability-aware) performed the write; the
/// plain setter writes at low durability, the durability-aware one at the
/// durability it was given.
pub proof fn law_set_then_get<V>(
    s0: Map<Seq<char>, Option<(V, Durability)>>,
    name: Seq<char>,
    v: V,
    d: Durability,
)
    ensures
        s0.insert(name, Some((v, Durability::Low)))[name] == Some((v, Durability::Low)),
        s0.insert(name, Some((v, d)))[name] == Some((v, d)),
{
}

/// Law: the name mangling of the generated declarations is collision-free:
/// distinct inputs get distinct plain setters, distinct durability-aware
/// setters, and distinct shims, and one input's two setters never collide
/// with each other.
pub proof fn law_generated_names(a: Seq<char>, b: Seq<char>)
    ensures
        spec_setter_name(a) == spec_setter_name(b) ==> a == b,
        spec_durability_setter_name(a) == spec_durability_setter_name(b) ==> a == b,
        spec_shim_name(a) == spec_shim_name(b) ==> a == b,
        spec_setter_name(a) != spec_durability_setter_name(a),
{
    reveal_strlit("set_");
    reveal_strlit("_shim");
    reveal_strlit("_with_durability");
    if spec_setter_name(a) == spec_setter_name(b) {
        assert(a =~= ("set_"@ + a).skip(4));
        assert(b =~= ("set_"@ + b).skip(4));
    }
    if spec_durability_setter_name(a) == spec_durability_setter_name(b) {
        assert(("set_"@ + a + "_with_durability"@).len() == a.len() + 20);
        assert(a =~= ("set_"@ + a + "_with_durability"@).subrange(4, 4 + a.len() as int));
        assert(b =~= ("set_"@ + b + "_with_durability"@).subrange(4, 4 + b.len() as int));
    }
    if spec_shim_name(a) == spec_shim_name(b) {
        assert((a + "_shim"@).len() == a.len() + 5);
        assert(a =~= (a + "_shim"@).take(a.len() as int));
        assert(b =~= (b + "_shim"@).take(b.len() as int));
    }
    assert(spec_setter_name(a).len() != spec_durability_setter_name(a).len());
}

/// The attribute classifier keeps exactly the annotations that are not
/// directives, in order.
pub proof fn lemma_split_kept_is_filter(attrs: Seq<AttrView>)
    ensures
        spec_split_attrs(attrs).0 =~= attrs.filter(|a: AttrView| !spec_is_directive_attr(a)),
    decreases attrs.len(),
{
    reveal(Seq::<_>::filter);
    if attrs.len() > 0 {
        lemma_split_kept_is_filter(attrs.drop_last());
    }
}

/// Law: re-emission strips exactly the recognized directives from each
/// method and touches nothing else: the method keeps its name, parameters,
/// return type, and precisely its non-directive annotations, in order.
pub proof fn law_directive_stripping(t: TraitDefView, cs: Seq<ClassifiedView>, i: int)
    requires
        spec_classify_all(t.methods) == Ok::<Seq<ClassifiedView>, GenErrorView>(cs),
        0 <= i < cs.len(),
    ensures
        spec_query_group(t) is Ok,
        spec_query_group(t)->Ok_0.methods.len() == t.methods.len(),
        spec_query_group(t)->Ok_0.methods[i].attrs =~= t.methods[i].attrs.filter(
            |a: AttrView| !spec_is_directive_attr(a),
        ),
        spec_query_group(t)->Ok_0.methods[i].name == t.methods[i].name,
        spec_query_group(t)->Ok_0.methods[i].params == t.methods[i].params,
        spec_query_group(t)->Ok_0.methods[i].output == t.methods[i].output,
{
    lemma_classify_all_ok(t.methods);
    lemma_stripped_methods_index(cs);
    lemma_split_kept_is_filter(t.methods[i].attrs);
}

/// A well-formed identifier: nonempty, opened by an identifier-start
/// character, made of identifier characters throughout.
pub open spec fn spec_wf_ident(s: Seq<char>) -> bool {
    s.len() > 0 && is_ident_start_char(s[0]) && forall|k: int|
        0 <= k < s.len() ==> is_ident_char(#[trigger] s[k])
}

/// Whatever the tail parser accepts extends well-formed segments only with
/// well-formed segments.
proof fn lemma_parse_tail_idents(s: Seq<char>, i: int, segs: Seq<Seq<char>>)
    requires
        0 <= i <= s.len(),
        spec_parse_tail(s, i, segs) is Some,
        forall|k: int| 0 <= k < segs.len() ==> spec_wf_ident(#[trigger] segs[k]),
    ensures
        spec_parse_tail(s, i, segs)->Some_0.len() >= segs.len(),
        forall|k: int|
            0 <= k < spec_parse_tail(s, i, segs)->Some_0.len() ==> spec_wf_ident(
                #[trigger] spec_parse_tail(s, i, segs)->Some_0[k],
            ),
    decreases s.len() - i,
{
    let j = ws_end(s, i);
    lemma_ws_end(s, i);
    if j < s.len() && s[j] == ')' {
    } else if j < s.len() && s[j] == ':' && j + 1 < s.len() && s[j + 1] == ':' {
        let k = ws_end(s, j + 2);
        lemma_ws_end(s, j + 2);
        if k < s.len() && is_ident_start_char(s[k]) {
            let e = ident_end(s, k);
            assert(is_ident_char(s[k]));
            lemma_ident_end(s, k);
            lemma_ident_end(s, k + 1);
            assert(e == ident_end(s, k + 1));
            let seg = s.subrange(k, e);
            assert(e > k);
            assert(spec_wf_ident(seg));
            assert(forall|x: int|
                0 <= x < segs.push(seg).len() ==> spec_wf_ident(#[trigger] segs.push(seg)[x]));
            lemma_parse_tail_idents(s, e, segs.push(seg));
        }
    }
}

/// Law: every directive target the argument grammar accepts is a path of
/// well-formed identifier segments — at least one, each nonempty, opened by
/// a letter or underscore, free of separators and spaces.
pub proof fn law_parsed_target_segments(s: Seq<char>)
    requires
        spec_parse_paren_path(s) is Some,
    ensures
        spec_parse_paren_path(s)->Some_0.len() > 0,
        forall|k: int|
            0 <= k < spec_parse_paren_path(s)->Some_0.len() ==> spec_wf_ident(
                #[trigger] spec_parse_paren_path(s)->Some_0[k],
            ),
{
    let i = ws_end(s, 0);
    lemma_ws_end(s, 0);
    assert(i < s.len() && s[i] == '(');
    let k = ws_end(s, i + 1);
    lemma_ws_end(s, i + 1);
    assert(k < s.len() && is_ident_start_char(s[k]));
    let e = ident_end(s, k);
    assert(is_ident_char(s[k]));
    lemma_ident_end(s, k);
    lemma_ident_end(s, k + 1);
    assert(e == ident_end(s, k + 1));
    let seg = s.subrange(k, e);
    assert(e > k);
    assert(spec_wf_ident(seg));
    assert(forall|x: int| 0 <= x < seq![seg].len() ==> spec_wf_ident(#[trigger] seq![seg][x]));
    lemma_parse_tail_idents(s, e, seq![seg]);
}

/// The tail of a rendered path, read from the left: `::segment` repeated.
pub open spec fn spec_render_path_tail(p: Seq<Seq<char>>) -> Seq<char>
    decreases p.len(),
{
    if p.len() == 0 {
        Seq::empty()
    } else {
        "::"@ + p[0] + spec_render_path_tail(p.drop_first())
    }
}

proof fn lemma_render_tail_push(q: Seq<Seq<char>>, x: Seq<char>)
    ensures
        spec_render_path_tail(q.push(x)) =~= spec_render_path_tail(q) + "::"@ + x,
    decreases q.len(),
{
    if q.len() == 0 {
        assert(q.push(x)[0] == x);
        assert(q.push(x).drop_first() =~= Seq::<Seq<char>>::empty());
        assert(spec_render_path_tail(q.push(x).drop_first()) =~= Seq::<char>::empty());
        assert(spec_render_path_tail(q) =~= Seq::<char>::empty());
        assert(spec_render_path_tail(q.push(x)) =~= "::"@ + x + Seq::<char>::empty());
        assert(spec_render_path_tail(q.push(x)) =~= spec_render_path_tail(q) + "::"@ + x);
    } else {
        assert(q.push(x)[0] == q[0]);
        assert(q.push(x).drop_first() =~= q.drop_first().push(x));
        lemma_render_tail_push(q.drop_first(), x);
        assert(spec_render_path_tail(q.push(x)) =~= "::"@ + q[0] + (spec_render_path_tail(
            q.drop_first(),
        ) + "::"@ + x));
        assert(spec_render_path_tail(q.push(x)) =~= spec_render_path_tail(q) + "::"@ + x);
    }
}

/// A rendered path is its first segment followed by its rendered tail.
proof fn lemma_render_path_split(p: Seq<Seq<char>>)
    requires
        p.len() >= 1,
    ensures
        spec_render_path(p) =~= p[0] + spec_render_path_tail(p.drop_first()),
    decreases p.len(),
{
    if p.len() == 1 {
        assert(p.drop_first() =~= Seq::<Seq<char>>::empty());
        assert(spec_render_path(p) =~= p[0] + spec_render_path_tail(p.drop_first()));
    } else {
        lemma_render_path_split(p.drop_last());
        assert(p.drop_last()[0] == p[0]);
        assert(p.drop_first() =~= p.drop_last().drop_first().push(p.last()));
        lemma_render_tail_push(p.drop_last().drop_first(), p.last());
        assert(spec_render_path(p) =~= p[0] + spec_render_path_tail(p.drop_first()));
    }
}

/// The separator and delimiter characters are not identifier characters and
/// not spaces.
proof fn lemma_grammar_chars()
    ensures
        !is_ident_char(':'),
        !is_ident_char(')'),
        ':' != ' ',
        ')' != ' ',
        '(' != ' ',
        forall|c: char| is_ident_char(c) ==> c != ' ' && c != ':' && c != ')',
        forall|c: char| is_ident_start_char(c) ==> is_ident_char(c),
{
}

/// Parsing the rendered tail of a path appends exactly its segments.
proof fn lemma_parse_tail_of_render(s: Seq<char>, i: int, segs: Seq<Seq<char>>, rest: Seq<
    Seq<char>,
>)
    requires
        0 <= i <= s.len(),
        s.skip(i) =~= spec_render_path_tail(rest) + ")"@,
        forall|k: int| 0 <= k < rest.len() ==> spec_wf_ident(#[trigger] rest[k]),
    ensures
        spec_parse_tail(s, i, segs) == Some(segs + rest),
    decreases rest.len(),
{
    reveal_strlit("::");
    reveal_strlit(")");
    assert("::"@.len() == 2);
    assert(")"@.len() == 1);
    lemma_grammar_chars();
    if rest.len() == 0 {
        assert(s.skip(i) =~= ")"@);
        assert(s.len() - i == 1);
        assert(s[i] == s.skip(i)[0]);
        assert(s[i] == ')');
        lemma_ws_end_at(s, i);
        lemma_ws_end_at(s, i + 1);
        assert(segs + rest =~= segs);
        assert(spec_parse_tail(s, i, segs) == Some(segs + rest));
    } else {
        let seg = rest[0];
        let tail = spec_render_path_tail(rest.drop_first());
        assert(s.skip(i) =~= "::"@ + seg + tail + ")"@);
        assert(seg.len() > 0);
        assert(s.len() - i == 2 + seg.len() + tail.len() + 1);
        assert(s[i] == s.skip(i)[0]);
        assert(s[i] == ':');
        assert(s[i + 1] == s.skip(i)[1]);
        assert(s[i + 1] == ':');
        lemma_ws_end_at(s, i);
        assert(s[i + 2] == s.skip(i)[2]);
        assert(s[i + 2] == seg[0]);
        assert(is_ident_start_char(s[i + 2]));
        lemma_ws_end_at(s, i + 2);
        let stop = i + 2 + seg.len() as int;
        assert forall|j: int| i + 2 <= j < stop implies #[trigger] s[j] == seg[j - (i + 2)] by {
            assert(s[j] == s.skip(i)[j - i]);
            assert(("::"@ + seg + tail + ")"@)[j - i] == seg[j - i - 2]);
        }
        if tail.len() == 0 {
            assert(s[stop] == s.skip(i)[2 + seg.len() as int]);
            assert(s[stop] == ')');
        } else {
            assert(rest.drop_first().len() > 0);
            assert(tail[0] == ':');
            assert(s[stop] == s.skip(i)[2 + seg.len() as int]);
            assert(s[stop] == ':');
        }
        lemma_ident_end_exact(s, i + 2, stop);
        assert(s.subrange(i + 2, stop) =~= seg);
        assert forall|m: int| 0 <= m < s.len() - stop implies #[trigger] s.skip(stop)[m] == (tail
            + ")"@)[m] by {
            assert(s.skip(stop)[m] == s[stop + m]);
            assert(s[stop + m] == s.skip(i)[stop + m - i]);
            assert(("::"@ + seg + tail + ")"@)[stop + m - i] == (tail + ")"@)[m]);
        }
        assert(s.skip(stop) =~= tail + ")"@);
        lemma_parse_tail_of_render(s, stop, segs.push(seg), rest.drop_first());
        assert(segs.push(seg) + rest.drop_first() =~= segs + rest);
    }
}

/// Law: the argument grammar and the path renderer agree — parsing the
/// parenthesized rendering of any path of well-formed identifier segments
/// returns exactly that path.
pub proof fn law_parse_render_round_trip(p: Seq<Seq<char>>)
    requires
        p.len() > 0,
        forall|k: int| 0 <= k < p.len() ==> spec_wf_ident(#[trigger] p[k]),
    ensures
        spec_parse_paren_path("("@ + spec_render_path(p) + ")"@) == Some(p),
{
    reveal_strlit("(");
    reveal_strlit(")");
    reveal_strlit("::");
    assert("("@.len() == 1);
    assert(")"@.len() == 1);
    lemma_grammar_chars();
    let s = "("@ + spec_render_path(p) + ")"@;
    lemma_render_path_split(p);
    let tail = spec_render_path_tail(p.drop_first());
    assert(s =~= "("@ + p[0] + tail + ")"@);
    assert(s[0] == '(');
    assert('(' != ' ');
    lemma_ws_end_at(s, 0);
    assert(p[0].len() > 0);
    assert(s[1] == p[0][0]);
    assert(is_ident_start_char(s[1]));
    lemma_ws_end_at(s, 1);
    assert(forall|j: int| 1 <= j < 1 + p[0].len() ==> #[trigger] s[j] == p[0][j - 1]);
    let stop = 1 + p[0].len() as int;
    if tail.len() == 0 {
        assert(s[stop] == ')');
    } else {
        assert(p.drop_first().len() > 0);
        assert(tail[0] == ':');
        assert(s[stop] == ':');
    }
    lemma_ident_end_exact(s, 1, stop);
    assert(s.subrange(1, stop) =~= p[0]);
    assert(s.skip(stop) =~= tail + ")"@);
    lemma_parse_tail_of_render(s, stop, seq![p[0]], p.drop_first());
    assert(seq![p[0]] + p.drop_first() =~= p);
}

/// With no recognized directives, the attribute classifier finds nothing.
proof fn lemma_no_directives(attrs: Seq<AttrView>)
    requires
        forall|i: int| 0 <= i < attrs.len() ==> !spec_is_directive_attr(#[trigger] attrs[i]),
    ensures
        spec_split_attrs(attrs).1 =~= Seq::<DirAttrView>::empty(),
    decreases attrs.len(),
{
    if attrs.len() > 0 {
        assert(forall|i: int|
            0 <= i < attrs.drop_last().len() ==> !spec_is_directive_attr(
                #[trigger] attrs.drop_last()[i],
            ));
        lemma_no_directives(attrs.drop_last());
    }
}

/// Law: a method with no recognized directive is a tracked computation
/// with no redirect, no cycle recovery and no eviction bound — the
/// memoized default.
pub proof fn law_unadorned_method_is_tracked(m: MethodView)
    requires
        m.has_receiver,
        !(m.output is Unit),
        m.params.len() <= 1,
        forall|i: int| 0 <= i < m.attrs.len() ==> !spec_is_directive_attr(#[trigger] m.attrs[i]),
    ensures
        spec_classify_method(m) == Ok::<ClassifiedView, ErrKindView>(
            ClassifiedView {
                name: m.name,
                params: m.params,
                output: m.output,
                kept_attrs: spec_split_attrs(m.attrs).0,
                kind: QueryKindView::TrackedComputation { invoke: None, cycle: None, lru: false },
            },
        ),
{
    lemma_no_directives(m.attrs);
}

/// Law: the backing record's fields are exactly the eligible methods' —
/// one per input or path-returning method, named after the method, holding
/// its return type, in declaration order, and no others.
pub proof fn law_record_fields_exact(cs: Seq<ClassifiedView>)
    ensures
        spec_record_fields(cs) =~= cs.filter(|c: ClassifiedView| spec_field_eligible(c))
            .map_values(
            |c: ClassifiedView| FieldView { name: c.name, ty: spec_output_text(c.output) },
        ),
    decreases cs.len(),
{
    reveal(Seq::<_>::filter);
    if cs.len() > 0 {
        law_record_fields_exact(cs.drop_last());
        let pre = cs.drop_last().filter(|c: ClassifiedView| spec_field_eligible(c));
        if spec_field_eligible(cs.last()) {
            assert(cs.filter(|c: ClassifiedView| spec_field_eligible(c)) == pre.push(cs.last()));
            assert(pre.push(cs.last()).map_values(
                |c: ClassifiedView| FieldView { name: c.name, ty: spec_output_text(c.output) },
            ) =~= pre.map_values(
                |c: ClassifiedView| FieldView { name: c.name, ty: spec_output_text(c.output) },
            ).push(FieldView { name: cs.last().name, ty: spec_output_text(cs.last().output) }));
        } else {
            assert(cs.filter(|c: ClassifiedView| spec_field_eligible(c)) == pre);
        }
    }
}

/// Law: the setter extension trait holds exactly the setter pairs of the
/// inputs, in declaration order, and nothing else — a non-input method
/// contributes no setter.
pub proof fn law_setters_exact(cs: Seq<ClassifiedView>)
    ensures
        spec_all_setters(cs) =~= cs.map_values(|c: ClassifiedView| spec_setters_for(c)).flatten(),
    decreases cs.len(),
{
    let mapped = cs.map_values(|c: ClassifiedView| spec_setters_for(c));
    mapped.lemma_flatten_and_flatten_alt_are_equivalent();
    if cs.len() == 0 {
        assert(mapped.len() == 0);
        assert(spec_all_setters(cs) =~= mapped.flatten_alt());
    } else {
        law_setters_exact(cs.drop_last());
        let mpre = cs.drop_last().map_values(|c: ClassifiedView| spec_setters_for(c));
        mpre.lemma_flatten_and_flatten_alt_are_equivalent();
        assert(mapped.drop_last() =~= mpre);
        assert(mapped.last() == spec_setters_for(cs.last()));
        assert(spec_all_setters(cs) =~= mapped.flatten_alt());
    }
}

/// Classification failure somewhere means failure of the whole list.
proof fn lemma_classify_all_err_exists(ms: Seq<MethodView>)
    requires
        spec_classify_all(ms) is Err,
    ensures
        exists|i: int| 0 <= i < ms.len() && spec_classify_method(#[trigger] ms[i]) is Err,
    decreases ms.len(),
{
    if ms.len() > 0 {
        if spec_classify_all(ms.drop_last()) is Err {
            lemma_classify_all_err_exists(ms.drop_last());
            let i = choose|i: int|
                0 <= i < ms.drop_last().len() && spec_classify_method(
                    #[trigger] ms.drop_last()[i],
                ) is Err;
            assert(spec_classify_method(ms[i]) is Err);
        } else {
            assert(spec_classify_method(ms[ms.len() - 1]) is Err);
        }
    }
}

/// Law: the expansion is all or nothing — it is replaced by an error
/// exactly when some method cannot be classified, and succeeds with the
/// full output otherwise; no partial output ever accompanies an error.
pub proof fn law_whole_or_nothing(t: TraitDefView)
    ensures
        spec_query_group(t) is Err <==> exists|i: int|
            0 <= i < t.methods.len() && spec_classify_method(#[trigger] t.methods[i]) is Err,
{
    if spec_query_group(t) is Err {
        lemma_classify_all_err_exists(t.methods);
    }
    if exists|i: int|
        0 <= i < t.methods.len() && spec_classify_method(#[trigger] t.methods[i]) is Err {
        let i = choose|i: int|
            0 <= i < t.methods.len() && spec_classify_method(#[trigger] t.methods[i]) is Err;
        lemma_classify_all_err_of_method(t.methods, i);
    }
}

} // verus!
