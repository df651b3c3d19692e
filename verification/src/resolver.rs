//! The range resolver: from the text of a range expression to a resolved
//! closed interval of integers.
//!
//! The accepted forms are `N..M`, `N..=M`, `..M` and `..=M`, with arbitrary
//! whitespace between the tokens, where `N` and `M` are runs of decimal
//! digits whose value fits the machine word. An absent lower bound defaults
//! to zero; an absent upper bound is an error; any other text is rejected.

use vstd::prelude::*;

use crate::diag::{Diagnostic, ErrorKind, SrcSpan};
use crate::digits::{all_digits, all_digits_x, digits_value, parse_digits};
use crate::scan::{
    find_dotdot, find_dotdot_x, lemma_find_dotdot_bounds, lemma_ws_end_min, trim_end, trim_end_x,
    ws_end, ws_end_x,
};

verus! {

/// The parsed shape of a range expression: an optional lower bound, the
/// mandatory upper bound, and whether the upper bound is itself included.
#[derive(Clone, Copy, Debug, PartialEq, Eq)]
pub struct RangeSpec {
    pub lower: Option<usize>,
    pub upper: usize,
    pub inclusive: bool,
}

/// A fully resolved interval, denoting the integers `n` with
/// `from <= n <= to`; it is empty exactly when `from > to`.
#[derive(Clone, Copy, Debug, PartialEq, Eq, Structural)]
pub struct ResolvedInterval {
    pub from: usize,
    pub to: usize,
}

/// The integers from `from` to `to` inclusive, ascending; empty when
/// `from > to`.
pub open spec fn int_range_seq(from: int, to: int) -> Seq<int> {
    if from > to {
        Seq::empty()
    } else {
        Seq::new((to - from + 1) as nat, |k: int| from + k)
    }
}

impl ResolvedInterval {
    /// The integers of the interval, ascending.
    pub open spec fn seq(self) -> Seq<int> {
        int_range_seq(self.from as int, self.to as int)
    }

    /// Whether the interval holds no integer.
    pub open spec fn is_empty(self) -> bool {
        self.from > self.to
    }
}

/// The lower end of the interval a parsed range denotes: the lower bound, or
/// zero when it was omitted.
pub open spec fn resolved_from(r: RangeSpec) -> int {
    match r.lower {
        Some(l) => l as int,
        None => 0,
    }
}

/// The upper end of the interval a parsed range denotes: the upper bound
/// itself when inclusive, one less otherwise (possibly `-1`, an empty
/// interval).
pub open spec fn resolved_to(r: RangeSpec) -> int {
    if r.inclusive {
        r.upper as int
    } else {
        r.upper as int - 1
    }
}

/// The integers a parsed range denotes, ascending.
pub open spec fn resolved_seq(r: RangeSpec) -> Seq<int> {
    int_range_seq(resolved_from(r), resolved_to(r))
}

/// What parsing the text of a range expression yields.
///
/// The text is searched for its `..` (or `..=`) limit token; text on either
/// side, trimmed of whitespace, is the bound there. A text with no limit
/// token, or with a second one, is not a range, and the diagnostic spans the
/// whole text, standing for the call site. A bound that is not a run of
/// decimal digits with a machine-word value is not an integer literal, and
/// the diagnostic spans that bound. An empty upper bound is a missing upper
/// bound, and the diagnostic spans the limit token.
pub open spec fn parse_range_spec(s: Seq<char>) -> Result<RangeSpec, Diagnostic> {
    let n = s.len() as int;
    let d = find_dotdot(s, 0);
    if d >= n {
        Err(Diagnostic { kind: ErrorKind::NotARange, span: SrcSpan { lo: 0, hi: s.len() as usize } })
    } else {
        let inclusive = d + 2 < n && s[d + 2] == '=';
        let limit_end = if inclusive {
            d + 3
        } else {
            d + 2
        };
        if find_dotdot(s, limit_end) < n {
            Err(
                Diagnostic {
                    kind: ErrorKind::NotARange,
                    span: SrcSpan { lo: 0, hi: s.len() as usize },
                },
            )
        } else {
            let llo = ws_end(s, 0);
            let lhi = trim_end(s, llo, d);
            let ulo = ws_end(s, limit_end);
            let uhi = trim_end(s, ulo, n);
            if llo < lhi && !(all_digits(s, llo, lhi) && digits_value(s, llo, lhi) <= usize::MAX) {
                Err(
                    Diagnostic {
                        kind: ErrorKind::BoundNotIntegerLiteral,
                        span: SrcSpan { lo: llo as usize, hi: lhi as usize },
                    },
                )
            } else if ulo >= uhi {
                Err(
                    Diagnostic {
                        kind: ErrorKind::MissingUpperBound,
                        span: SrcSpan { lo: d as usize, hi: limit_end as usize },
                    },
                )
            } else if !(all_digits(s, ulo, uhi) && digits_value(s, ulo, uhi) <= usize::MAX) {
                Err(
                    Diagnostic {
                        kind: ErrorKind::BoundNotIntegerLiteral,
                        span: SrcSpan { lo: ulo as usize, hi: uhi as usize },
                    },
                )
            } else {
                Ok(
                    RangeSpec {
                        lower: if llo == lhi {
                            None
                        } else {
                            Some(digits_value(s, llo, lhi) as usize)
                        },
                        upper: digits_value(s, ulo, uhi) as usize,
                        inclusive,
                    },
                )
            }
        }
    }
}

/// Parses the text of a range expression.
pub fn parse_range(s: &Vec<char>) -> (r: Result<RangeSpec, Diagnostic>)
    ensures
        r == parse_range_spec(s@),
{
    let n = s.len();
    let d = find_dotdot_x(s, 0);
    proof {
        lemma_find_dotdot_bounds(s@, 0);
    }
    if d >= n {
        return Err(Diagnostic::new(ErrorKind::NotARange, 0, n));
    }
    let inclusive = d + 2 < n && s[d + 2] == '=';
    let limit_end = if inclusive {
        d + 3
    } else {
        d + 2
    };
    if find_dotdot_x(s, limit_end) < n {
        return Err(Diagnostic::new(ErrorKind::NotARange, 0, n));
    }
    let llo = ws_end_x(s, 0);
    proof {
        lemma_ws_end_min(s@, 0, d as int);
    }
    let lhi = trim_end_x(s, llo, d);
    let ulo = ws_end_x(s, limit_end);
    let uhi = trim_end_x(s, ulo, n);
    let mut lower: Option<usize> = None;
    if llo < lhi {
        if !all_digits_x(s, llo, lhi) {
            return Err(Diagnostic::new(ErrorKind::BoundNotIntegerLiteral, llo, lhi));
        }
        match parse_digits(s, llo, lhi) {
            None => {
                return Err(Diagnostic::new(ErrorKind::BoundNotIntegerLiteral, llo, lhi));
            },
            Some(v) => {
                lower = Some(v);
            },
        }
    }
    if ulo >= uhi {
        return Err(Diagnostic::new(ErrorKind::MissingUpperBound, d, limit_end));
    }
    if !all_digits_x(s, ulo, uhi) {
        return Err(Diagnostic::new(ErrorKind::BoundNotIntegerLiteral, ulo, uhi));
    }
    match parse_digits(s, ulo, uhi) {
        None => Err(Diagnostic::new(ErrorKind::BoundNotIntegerLiteral, ulo, uhi)),
        Some(upper) => Ok(RangeSpec { lower, upper, inclusive }),
    }
}

/// Resolves a parsed range to the closed interval it denotes.
///
/// The lower end is the lower bound, or zero when it was omitted; the upper
/// end is the upper bound, included or not as the range wrote it. An
/// exclusive upper bound of zero, and a lower end beyond the upper end,
/// yield an empty interval: valid output, not an error.
pub fn resolve(r: &RangeSpec) -> (iv: ResolvedInterval)
    ensures
        iv.seq() == resolved_seq(*r),
        r.inclusive ==> iv.from == resolved_from(*r) && iv.to == r.upper,
        !r.inclusive && r.upper > 0 ==> iv.from == resolved_from(*r) && iv.to == r.upper - 1,
        !r.inclusive && r.upper == 0 ==> iv.is_empty(),
{
    let from = match r.lower {
        Some(l) => l,
        None => 0,
    };
    if r.inclusive {
        ResolvedInterval { from, to: r.upper }
    } else if r.upper > 0 {
        ResolvedInterval { from, to: r.upper - 1 }
    } else {
        let iv = ResolvedInterval { from: 1, to: 0 };
        assert(iv.seq() =~= resolved_seq(*r));
        iv
    }
}

} // verus!
