use range_enum::diag::{Diagnostic, ErrorKind, SrcSpan};
use range_enum::range_enum;

fn chars(s: &str) -> Vec<char> {
    s.chars().collect()
}

fn fail(range: &str, decl: &str) -> Diagnostic {
    range_enum(&chars(range), &chars(decl)).expect_err("transform should fail")
}

#[test]
fn plain_identifier_is_not_a_range() {
    let d = fail("foo", "enum A {}");
    assert_eq!(d.kind, ErrorKind::NotARange);
    assert_eq!(d.span, SrcSpan { lo: 0, hi: 3 });
    assert_eq!(d.message(), "range-enum requires a range");
}

#[test]
fn empty_text_is_not_a_range() {
    let d = fail("", "enum A {}");
    assert_eq!(d.kind, ErrorKind::NotARange);
    assert_eq!(d.span, SrcSpan { lo: 0, hi: 0 });
}

#[test]
fn chained_ranges_are_not_a_range() {
    let d = fail("1..2..3", "enum A {}");
    assert_eq!(d.kind, ErrorKind::NotARange);
    assert_eq!(d.span, SrcSpan { lo: 0, hi: 7 });
}

#[test]
fn named_constant_upper_bound_is_rejected_at_its_position() {
    let d = fail("1..N", "enum A {}");
    assert_eq!(d.kind, ErrorKind::BoundNotIntegerLiteral);
    assert_eq!(d.span, SrcSpan { lo: 3, hi: 4 });
    assert_eq!(d.message(), "range-enum requires a usize range");
}

#[test]
fn named_constant_lower_bound_is_rejected_at_its_position() {
    let d = fail("lo..3", "enum A {}");
    assert_eq!(d.kind, ErrorKind::BoundNotIntegerLiteral);
    assert_eq!(d.span, SrcSpan { lo: 0, hi: 2 });
}

#[test]
fn lower_bound_error_comes_before_upper_bound_error() {
    let d = fail("x..y", "enum A {}");
    assert_eq!(d.kind, ErrorKind::BoundNotIntegerLiteral);
    assert_eq!(d.span, SrcSpan { lo: 0, hi: 1 });
}

#[test]
fn negative_bound_is_not_an_integer_literal() {
    let d = fail("-1..3", "enum A {}");
    assert_eq!(d.kind, ErrorKind::BoundNotIntegerLiteral);
    assert_eq!(d.span, SrcSpan { lo: 0, hi: 2 });
}

#[test]
fn float_bound_is_not_an_integer_literal() {
    let d = fail("1.5..3", "enum A {}");
    assert_eq!(d.kind, ErrorKind::BoundNotIntegerLiteral);
    assert_eq!(d.span, SrcSpan { lo: 0, hi: 3 });
}

#[test]
fn oversized_bound_is_not_a_machine_word_literal() {
    let d = fail("0..18446744073709551616", "enum A {}");
    assert_eq!(d.kind, ErrorKind::BoundNotIntegerLiteral);
    assert_eq!(d.span, SrcSpan { lo: 3, hi: 23 });
}

#[test]
fn open_upper_end_is_missing_upper_bound_at_the_limit() {
    let d = fail("2..", "enum A {}");
    assert_eq!(d.kind, ErrorKind::MissingUpperBound);
    assert_eq!(d.span, SrcSpan { lo: 1, hi: 3 });
    assert_eq!(d.message(), "range-enum requires an explicit end of range");
}

#[test]
fn bare_limit_is_missing_upper_bound() {
    let d = fail("..", "enum A {}");
    assert_eq!(d.kind, ErrorKind::MissingUpperBound);
    assert_eq!(d.span, SrcSpan { lo: 0, hi: 2 });
}

#[test]
fn inclusive_limit_without_upper_is_missing_upper_bound() {
    let d = fail("..=", "enum A {}");
    assert_eq!(d.kind, ErrorKind::MissingUpperBound);
    assert_eq!(d.span, SrcSpan { lo: 0, hi: 3 });
}

#[test]
fn struct_declaration_is_not_an_enum() {
    let d = fail("1..2", "struct Foo {}");
    assert_eq!(d.kind, ErrorKind::NotAnEnum);
    assert_eq!(d.span, SrcSpan { lo: 0, hi: 13 });
    assert_eq!(d.message(), "range-enum requires an enum");
}

#[test]
fn trailing_text_after_the_body_is_not_an_enum() {
    let d = fail("1..2", "enum Foo {} extra");
    assert_eq!(d.kind, ErrorKind::NotAnEnum);
}

#[test]
fn unclosed_body_is_not_an_enum() {
    let d = fail("1..2", "enum Foo {");
    assert_eq!(d.kind, ErrorKind::NotAnEnum);
}

#[test]
fn missing_body_is_not_an_enum() {
    let d = fail("1..2", "enum Foo");
    assert_eq!(d.kind, ErrorKind::NotAnEnum);
}

#[test]
fn range_errors_come_before_declaration_errors() {
    let d = fail("bad", "struct X");
    assert_eq!(d.kind, ErrorKind::NotARange);
}
