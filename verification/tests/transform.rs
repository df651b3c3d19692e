use range_enum::decl::parse_decl;
use range_enum::diag::SrcSpan;
use range_enum::generator::generate;
use range_enum::range_enum;
use range_enum::resolver::{parse_range, resolve, RangeSpec, ResolvedInterval};

fn chars(s: &str) -> Vec<char> {
    s.chars().collect()
}

fn text(v: Vec<char>) -> String {
    v.into_iter().collect()
}

fn run(range: &str, decl: &str) -> String {
    text(range_enum(&chars(range), &chars(decl)).expect("transform should succeed"))
}

#[test]
fn exclusive_range_counts_and_names() {
    assert_eq!(run("1..4", "enum Foo {}"), "enum Foo { Foo1, Foo2, Foo3, }");
}

#[test]
fn inclusive_range_counts_and_names() {
    assert_eq!(run("1..=2", "enum Range {}"), "enum Range { Range1, Range2, }");
}

#[test]
fn single_variant_inclusive() {
    assert_eq!(run("7..=7", "enum Slot {}"), "enum Slot { Slot7, }");
}

#[test]
fn omitted_lower_defaults_to_zero() {
    assert_eq!(run("..3", "enum Foo {}"), "enum Foo { Foo0, Foo1, Foo2, }");
}

#[test]
fn omitted_lower_inclusive() {
    assert_eq!(run("..=1", "enum Bit {}"), "enum Bit { Bit0, Bit1, }");
}

#[test]
fn exclusive_equal_bounds_is_empty_not_error() {
    assert_eq!(run("2..2", "enum Foo {}"), "enum Foo { }");
}

#[test]
fn exclusive_zero_upper_is_empty_not_error() {
    assert_eq!(run("..0", "enum Foo {}"), "enum Foo { }");
}

#[test]
fn whitespace_between_tokens_is_tolerated() {
    assert_eq!(run(" 1 ..= 2 ", "  enum  Pad  {  }  "), "enum Pad { Pad1, Pad2, }");
}

#[test]
fn generics_and_existing_variants_are_stripped() {
    assert_eq!(
        run(
            "0..2",
            "pub enum Foo<T: Clone, U> where T: Into<U> { A(T), B { x: U }, C }",
        ),
        "pub enum Foo { Foo0, Foo1, }"
    );
}

#[test]
fn attributes_and_visibility_are_kept() {
    assert_eq!(
        run("1..3", "#[derive(Debug)] pub(crate) enum Color {}"),
        "#[derive(Debug)] pub(crate) enum Color { Color1, Color2, }"
    );
}

#[test]
fn lifetime_generics_are_stripped() {
    assert_eq!(run("0..1", "enum Holder<'a, T> { Item(&'a T) }"), "enum Holder { Holder0, }");
}

#[test]
fn identical_inputs_give_identical_output() {
    let a = run("3..6", "enum Det {}");
    let b = run("3..6", "enum Det {}");
    assert_eq!(a, b);
}

#[test]
fn reapplying_depends_only_on_name_and_range() {
    let first = run("5..6", "enum Foo {}");
    assert_eq!(first, "enum Foo { Foo5, }");
    let second = run("0..1", &first);
    assert_eq!(second, "enum Foo { Foo0, }");
}

#[test]
fn parse_range_exclusive_shape() {
    let r = parse_range(&chars("1..3")).expect("a range");
    assert_eq!(r, RangeSpec { lower: Some(1), upper: 3, inclusive: false });
}

#[test]
fn parse_range_inclusive_shape() {
    let r = parse_range(&chars("..=9")).expect("a range");
    assert_eq!(r, RangeSpec { lower: None, upper: 9, inclusive: true });
}

#[test]
fn parse_range_largest_machine_word() {
    let r = parse_range(&chars("0..=18446744073709551615")).expect("a range");
    assert_eq!(r.upper, usize::MAX);
}

#[test]
fn resolve_exclusive_drops_upper() {
    let iv = resolve(&RangeSpec { lower: Some(1), upper: 3, inclusive: false });
    assert_eq!(iv, ResolvedInterval { from: 1, to: 2 });
}

#[test]
fn resolve_exclusive_zero_upper_is_empty() {
    let iv = resolve(&RangeSpec { lower: None, upper: 0, inclusive: false });
    assert!(iv.from > iv.to);
}

#[test]
fn skeleton_name_span_points_at_identifier() {
    let sk = parse_decl(&chars("enum Foo {}")).expect("an enum");
    assert_eq!(sk.name_span, SrcSpan { lo: 5, hi: 8 });
    assert_eq!(sk.name.iter().collect::<String>(), "Foo");
    assert_eq!(sk.prefix, Vec::<char>::new());
}

#[test]
fn variants_carry_name_provenance() {
    let sk = parse_decl(&chars("pub enum Two {}")).expect("an enum");
    let span = sk.name_span;
    assert_eq!(span, SrcSpan { lo: 9, hi: 12 });
    let iv = resolve(&RangeSpec { lower: Some(0), upper: 2, inclusive: false });
    let out = generate(sk, &iv);
    assert_eq!(out.variants.len(), 2);
    for v in &out.variants {
        assert_eq!(v.provenance, span);
    }
    assert_eq!(out.variants[0].text.iter().collect::<String>(), "Two0");
    assert_eq!(out.variants[1].text.iter().collect::<String>(), "Two1");
}
