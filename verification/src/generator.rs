//! The variant generator: from a declaration skeleton and a resolved
//! interval to the output declaration and its text.
//!
//! For every integer `n` of the interval, ascending, a variant named
//! `<name><n>` is synthesized, each carrying the position of the original
//! identifier as its provenance. The output declaration keeps the skeleton's
//! prefix and name, has no generic parameters, and holds exactly the
//! generated variants.

use vstd::prelude::*;

use crate::decl::DeclarationSkeleton;
use crate::diag::SrcSpan;
use crate::digits::{decimal_of, render_decimal};
use crate::resolver::ResolvedInterval;
use crate::scan::copy_range;

verus! {

/// A generated variant: its identifier text, and the position of the
/// originating identifier, carried for error reporting only.
#[derive(Debug, PartialEq, Eq)]
pub struct VariantName {
    pub text: Vec<char>,
    pub provenance: SrcSpan,
}

/// The mathematical shape of a generated variant.
pub ghost struct VariantNameView {
    pub text: Seq<char>,
    pub provenance: SrcSpan,
}

impl View for VariantName {
    type V = VariantNameView;

    open spec fn view(&self) -> VariantNameView {
        VariantNameView { text: self.text@, provenance: self.provenance }
    }
}

/// The output declaration: the skeleton plus the ordered generated variants.
#[derive(Debug, PartialEq, Eq)]
pub struct OutputDeclaration {
    pub prefix: Vec<char>,
    pub name: Vec<char>,
    pub variants: Vec<VariantName>,
}

/// The mathematical shape of an output declaration.
pub ghost struct OutputView {
    pub prefix: Seq<char>,
    pub name: Seq<char>,
    pub variants: Seq<VariantNameView>,
}

impl View for OutputDeclaration {
    type V = OutputView;

    open spec fn view(&self) -> OutputView {
        OutputView {
            prefix: self.prefix@,
            name: self.name@,
            variants: self.variants@.map_values(|v: VariantName| v@),
        }
    }
}

/// The identifier of the variant for integer `n`: the base name followed by
/// `n` in decimal.
pub open spec fn variant_name(base: Seq<char>, n: int) -> Seq<char> {
    base + decimal_of(n as nat)
}

/// The variant identifiers for the integers of `ints`, in order.
pub open spec fn names_spec(base: Seq<char>, ints: Seq<int>) -> Seq<Seq<char>> {
    ints.map_values(|n: int| variant_name(base, n))
}

/// Appends the characters of `src` to `dst`.
fn append_chars(dst: &mut Vec<char>, src: &Vec<char>)
    ensures
        final(dst)@ == old(dst)@ + src@,
{
    let mut k: usize = 0;
    while k < src.len()
        invariant
            k <= src.len(),
            dst@ == old(dst)@ + src@.subrange(0, k as int),
        decreases src.len() - k,
    {
        dst.push(src[k]);
        assert(src@.subrange(0, k as int).push(src@[k as int]) =~= src@.subrange(
            0,
            k as int + 1,
        ));
        k = k + 1;
    }
    assert(src@.subrange(0, src.len() as int) =~= src@);
}

/// Builds the identifier text of the variant for integer `n`.
fn make_variant_text(base: &Vec<char>, n: usize) -> (r: Vec<char>)
    ensures
        r@ == variant_name(base@, n as int),
{
    let mut v = copy_range(base, 0, base.len());
    assert(base@.subrange(0, base@.len() as int) =~= base@);
    let d = render_decimal(n);
    append_chars(&mut v, &d);
    v
}

/// Combines a skeleton and a resolved interval into the output declaration:
/// the skeleton's prefix and name, and one variant per integer of the
/// interval, ascending, each carrying the skeleton's name position as
/// provenance. An empty interval yields a declaration with zero variants.
pub fn generate(skel: DeclarationSkeleton, iv: &ResolvedInterval) -> (r: OutputDeclaration)
    ensures
        r@.prefix == skel@.prefix,
        r@.name == skel@.name,
        r@.variants.len() == iv.seq().len(),
        forall|j: int|
            0 <= j < iv.seq().len() ==> (#[trigger] r@.variants[j]).text == variant_name(
                skel@.name,
                iv.seq()[j],
            ) && r@.variants[j].provenance == skel.name_span,
{
    let mut variants: Vec<VariantName> = Vec::new();
    if iv.from <= iv.to {
        let mut k: usize = iv.from;
        while k < iv.to
            invariant
                iv.from <= k <= iv.to,
                variants@.len() == k - iv.from,
                forall|j: int|
                    0 <= j < variants@.len() ==> (#[trigger] variants@[j])@.text == variant_name(
                        skel.name@,
                        iv.from + j,
                    ) && variants@[j]@.provenance == skel.name_span,
            decreases iv.to - k,
        {
            let text = make_variant_text(&skel.name, k);
            variants.push(VariantName { text, provenance: skel.name_span });
            k = k + 1;
        }
        let text = make_variant_text(&skel.name, iv.to);
        variants.push(VariantName { text, provenance: skel.name_span });
    }
    OutputDeclaration { prefix: skel.prefix, name: skel.name, variants }
}

/// The serialized body of an output declaration: one ` <variant>,` item per
/// generated name, in order.
pub open spec fn render_body(names: Seq<Seq<char>>) -> Seq<char>
    decreases names.len(),
{
    if names.len() == 0 {
        Seq::empty()
    } else {
        render_body(names.drop_last()) + " "@ + names.last() + ","@
    }
}

/// The serialized form of an output declaration: the prefix verbatim, then
/// `enum <name> { <variants> }` with no generic parameters.
pub open spec fn render(prefix: Seq<char>, name: Seq<char>, names: Seq<Seq<char>>) -> Seq<char> {
    prefix + "enum "@ + name + " {"@ + render_body(names) + " }"@
}

/// The serialized form of an output declaration's shape.
pub open spec fn render_output(o: OutputView) -> Seq<char> {
    render(o.prefix, o.name, o.variants.map_values(|v: VariantNameView| v.text))
}

/// Serializes an output declaration to text.
pub fn serialize(out: &OutputDeclaration) -> (r: Vec<char>)
    ensures
        r@ == render_output(out@),
{
    let ghost names: Seq<Seq<char>> = out@.variants.map_values(|v: VariantNameView| v.text);
    let mut v = copy_range(&out.prefix, 0, out.prefix.len());
    assert(out.prefix@.subrange(0, out.prefix@.len() as int) =~= out.prefix@);
    v.push('e');
    v.push('n');
    v.push('u');
    v.push('m');
    v.push(' ');
    proof {
        reveal_strlit("enum ");
        assert(v@ =~= out@.prefix + "enum "@);
    }
    append_chars(&mut v, &out.name);
    v.push(' ');
    v.push('{');
    proof {
        reveal_strlit(" {");
        assert(v@ =~= out@.prefix + "enum "@ + out@.name + " {"@);
        assert(names.take(0) =~= Seq::<Seq<char>>::empty());
    }
    let mut i: usize = 0;
    while i < out.variants.len()
        invariant
            i <= out.variants.len(),
            names == out@.variants.map_values(|v: VariantNameView| v.text),
            names.len() == out.variants.len(),
            v@ == out@.prefix + "enum "@ + out@.name + " {"@ + render_body(names.take(i as int)),
        decreases out.variants.len() - i,
    {
        v.push(' ');
        append_chars(&mut v, &out.variants[i].text);
        v.push(',');
        proof {
            reveal_strlit(" ");
            reveal_strlit(",");
            assert(names.take(i as int + 1).drop_last() =~= names.take(i as int));
            assert(names.take(i as int + 1).last() == names[i as int]);
            assert(names[i as int] == out.variants@[i as int]@.text);
            assert(v@ =~= out@.prefix + "enum "@ + out@.name + " {"@ + render_body(
                names.take(i as int + 1),
            ));
        }
        i = i + 1;
    }
    v.push(' ');
    v.push('}');
    proof {
        reveal_strlit(" }");
        assert(names.take(names.len() as int) =~= names);
        assert(v@ =~= render_output(out@));
    }
    v
}

} // verus!
