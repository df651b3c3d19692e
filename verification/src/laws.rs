//! The laws of the transform, stated over the same spec functions that the
//! executable functions' contracts use.

use vstd::prelude::*;

use crate::decl::parse_decl_spec;
use crate::diag::{Diagnostic, ErrorKind, SrcSpan};
use crate::digits::{all_digits, digits_value};
use crate::generator::{names_spec, variant_name};
use crate::resolver::{parse_range_spec, resolved_seq, RangeSpec};
use crate::scan::{find_dotdot, lemma_find_dotdot_none, trim_end, ws_end};
use crate::transform_spec;

verus! {

/// For an exclusive range `n..m` with `n < m`, the generated names are
/// exactly `m - n` many: the base name followed by `n`, `n + 1`, …, `m - 1`,
/// in ascending order.
pub proof fn lemma_exclusive_range_names(name: Seq<char>, n: usize, m: usize)
    requires
        n < m,
    ensures
        ({
            let names = names_spec(
                name,
                resolved_seq(RangeSpec { lower: Some(n), upper: m, inclusive: false }),
            );
            &&& names.len() == m - n
            &&& forall|j: int| 0 <= j < m - n ==> names[j] == variant_name(name, n + j)
        }),
{
}

/// For an inclusive range `n..=m` with `n <= m`, the generated names are
/// exactly `m - n + 1` many: the base name followed by `n` through `m`, in
/// ascending order.
pub proof fn lemma_inclusive_range_names(name: Seq<char>, n: usize, m: usize)
    requires
        n <= m,
    ensures
        ({
            let names = names_spec(
                name,
                resolved_seq(RangeSpec { lower: Some(n), upper: m, inclusive: true }),
            );
            &&& names.len() == m - n + 1
            &&& forall|j: int| 0 <= j < m - n + 1 ==> names[j] == variant_name(name, n + j)
        }),
{
}

/// An omitted lower bound defaults to zero: a range with no lower bound
/// denotes the same integers as the same range with lower bound `0`.
pub proof fn lemma_omitted_lower_defaults_to_zero(upper: usize, inclusive: bool)
    ensures
        resolved_seq(RangeSpec { lower: None, upper, inclusive }) == resolved_seq(
            RangeSpec { lower: Some(0), upper, inclusive },
        ),
{
}

/// An exclusive range whose bounds are equal denotes no integers at all: the
/// output enumeration has zero variants, and that is valid output, not an
/// error.
pub proof fn lemma_exclusive_empty(name: Seq<char>, n: usize)
    ensures
        names_spec(
            name,
            resolved_seq(RangeSpec { lower: Some(n), upper: n, inclusive: false }),
        ).len() == 0,
{
}

/// Any input text with no `..` in it at all is not a range: parsing yields
/// `NotARange`, spanning the whole text.
pub proof fn lemma_not_a_range(s: Seq<char>)
    requires
        forall|k: int| 0 <= k && k + 1 < s.len() ==> !(#[trigger] s[k] == '.' && s[k + 1] == '.'),
    ensures
        parse_range_spec(s) == Err::<RangeSpec, Diagnostic>(
            Diagnostic { kind: ErrorKind::NotARange, span: SrcSpan { lo: 0, hi: s.len() as usize } },
        ),
{
    lemma_find_dotdot_none(s, 0);
}

/// A range whose upper bound is present but is not an integer literal with a
/// machine-word value yields `BoundNotIntegerLiteral` spanning that bound,
/// provided the text is a range, and its lower bound gave no earlier error.
pub proof fn lemma_upper_bound_not_literal(s: Seq<char>)
    requires
        ({
            let n = s.len() as int;
            let d = find_dotdot(s, 0);
            let inclusive = d + 2 < n && s[d + 2] == '=';
            let limit_end = if inclusive { d + 3 } else { d + 2 };
            let llo = ws_end(s, 0);
            let lhi = trim_end(s, llo, d);
            let ulo = ws_end(s, limit_end);
            let uhi = trim_end(s, ulo, n);
            &&& d < n
            &&& find_dotdot(s, limit_end) == n
            &&& (llo == lhi || (all_digits(s, llo, lhi) && digits_value(s, llo, lhi) <= usize::MAX))
            &&& ulo < uhi
            &&& !(all_digits(s, ulo, uhi) && digits_value(s, ulo, uhi) <= usize::MAX)
        }),
    ensures
        ({
            let n = s.len() as int;
            let d = find_dotdot(s, 0);
            let inclusive = d + 2 < n && s[d + 2] == '=';
            let limit_end = if inclusive { d + 3 } else { d + 2 };
            let ulo = ws_end(s, limit_end);
            let uhi = trim_end(s, ulo, n);
            parse_range_spec(s) == Err::<RangeSpec, Diagnostic>(
                Diagnostic {
                    kind: ErrorKind::BoundNotIntegerLiteral,
                    span: SrcSpan { lo: ulo as usize, hi: uhi as usize },
                },
            )
        }),
{
}

/// A range with no upper bound yields `MissingUpperBound` spanning the limit
/// token (`..` or `..=`), provided the text is a range and its lower bound
/// gave no earlier error.
pub proof fn lemma_missing_upper_bound(s: Seq<char>)
    requires
        ({
            let n = s.len() as int;
            let d = find_dotdot(s, 0);
            let inclusive = d + 2 < n && s[d + 2] == '=';
            let limit_end = if inclusive { d + 3 } else { d + 2 };
            let llo = ws_end(s, 0);
            let lhi = trim_end(s, llo, d);
            let ulo = ws_end(s, limit_end);
            let uhi = trim_end(s, ulo, n);
            &&& d < n
            &&& find_dotdot(s, limit_end) == n
            &&& (llo == lhi || (all_digits(s, llo, lhi) && digits_value(s, llo, lhi) <= usize::MAX))
            &&& ulo >= uhi
        }),
    ensures
        ({
            let n = s.len() as int;
            let d = find_dotdot(s, 0);
            let inclusive = d + 2 < n && s[d + 2] == '=';
            let limit_end = if inclusive { d + 3 } else { d + 2 };
            parse_range_spec(s) == Err::<RangeSpec, Diagnostic>(
                Diagnostic {
                    kind: ErrorKind::MissingUpperBound,
                    span: SrcSpan { lo: d as usize, hi: limit_end as usize },
                },
            )
        }),
{
}

/// Generic parameters and pre-existing variants do not reach the output:
/// two declarations that reduce to the same skeleton — same prefix, name and
/// name position, whatever generics, `where` clause or variants each carried
/// — yield the same output for every range.
pub proof fn lemma_decorations_stripped(range: Seq<char>, d1: Seq<char>, d2: Seq<char>)
    requires
        parse_decl_spec(d1) is Ok,
        parse_decl_spec(d2) is Ok,
        parse_decl_spec(d1) == parse_decl_spec(d2),
    ensures
        transform_spec(range, d1) == transform_spec(range, d2),
{
}

} // verus!
