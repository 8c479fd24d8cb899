//! A verified model of a query-group expander for an incremental-computation
//! runtime.
//!
//! The library takes an annotated trait declaration (a "query group"),
//! classifies each method by its directives (input, invoke, transparent,
//! cycle, lru), and produces the set of declarations that wire the trait
//! into the runtime: a backing data record, a memoized bootstrap function,
//! per-method getter implementations, and a setter extension trait.

pub mod assemble;
pub mod ast;
pub mod classify;
pub mod emit;
pub mod laws;
pub mod parse;
pub mod render;
pub mod store;
pub mod text;

use vstd::prelude::*;
use crate::assemble::{GenError, GenErrorView, OutputView, query_group, spec_query_group};
use crate::ast::TraitDef;
use crate::render::{render_output, spec_render_output};

verus! {

/// Expands an annotated trait declaration into the source text of its
/// supporting declarations, or reports the first classification error; no
/// partial output accompanies an error.
pub fn expand(t: &TraitDef) -> (r: Result<String, GenError>)
    ensures
        match r {
            Ok(text) => spec_query_group(t@) is Ok && text@ == spec_render_output(
                spec_query_group(t@)->Ok_0,
            ),
            Err(e) => spec_query_group(t@) == Err::<OutputView, GenErrorView>(e@),
        },
{
    match query_group(t) {
        Ok(o) => Ok(render_output(&o)),
        Err(e) => Err(e),
    }
}

} // verus!
