//! Generation of numbered enum variants from a range expression.
//!
//! Given the text of a range expression (`a..b` or `a..=b`, the lower bound
//! optional) and the text of an enum declaration, the library produces the
//! text of a new declaration of the same name whose variants are the original
//! name followed by each integer of the range, in ascending order. Generic
//! parameters and pre-existing variants of the input declaration are erased.
//! A malformed input is rejected with a diagnostic that carries an error kind
//! and the offending span.

use vstd::prelude::*;

pub mod decl;
pub mod diag;
pub mod digits;
pub mod generator;
pub mod laws;
pub mod resolver;
pub mod scan;

use crate::decl::parse_decl_spec;
use crate::diag::Diagnostic;
use crate::generator::{generate, names_spec, render, serialize};
use crate::resolver::{parse_range_spec, resolved_seq};

verus! {

/// What the whole transform yields on the text of a range expression and the
/// text of a declaration: the serialized output declaration, or the first
/// diagnostic in pipeline order (the range and its bounds first, the
/// declaration second).
pub open spec fn transform_spec(range: Seq<char>, decl: Seq<char>) -> Result<Seq<char>, Diagnostic> {
    match parse_range_spec(range) {
        Err(d) => Err(d),
        Ok(rs) => match parse_decl_spec(decl) {
            Err(d) => Err(d),
            Ok(sk) => Ok(render(sk.prefix, sk.name, names_spec(sk.name, resolved_seq(rs)))),
        },
    }
}

/// Runs the whole transform: parses the range expression, parses the
/// declaration, resolves the interval, generates the variants and serializes
/// the output declaration. A pure function of its two inputs: identical
/// inputs always yield the identical output text.
pub fn range_enum(range: &Vec<char>, decl: &Vec<char>) -> (r: Result<Vec<char>, Diagnostic>)
    ensures
        match r {
            Ok(out) => transform_spec(range@, decl@) == Ok::<Seq<char>, Diagnostic>(out@),
            Err(d) => transform_spec(range@, decl@) == Err::<Seq<char>, Diagnostic>(d),
        },
{
    let rs = match resolver::parse_range(range) {
        Err(d) => {
            return Err(d);
        },
        Ok(rs) => rs,
    };
    let sk = match decl::parse_decl(decl) {
        Err(d) => {
            return Err(d);
        },
        Ok(sk) => sk,
    };
    let ghost sk_view = sk@;
    let iv = resolver::resolve(&rs);
    let out = generate(sk, &iv);
    let text = serialize(&out);
    proof {
        assert(out@.variants.map_values(|v: generator::VariantNameView| v.text) =~= names_spec(
            sk_view.name,
            resolved_seq(rs),
        ));
    }
    Ok(text)
}

/// The transform is deterministic: any two results that the contract of
/// `range_enum` admits for the same pair of input texts are the same value.
pub proof fn lemma_transform_deterministic(
    range: Seq<char>,
    decl: Seq<char>,
    r1: Result<Seq<char>, Diagnostic>,
    r2: Result<Seq<char>, Diagnostic>,
)
    requires
        r1 == transform_spec(range, decl),
        r2 == transform_spec(range, decl),
    ensures
        r1 == r2,
{
}

} // verus!
