//! The declaration skeleton: what remains of the input enum declaration.
//!
//! An input declaration is reduced to its name, the attribute and visibility
//! text standing before the `enum` keyword (carried through verbatim so the
//! output round-trips), and the position of the name (the provenance every
//! generated variant carries). Generic parameters, any `where` clause and
//! the whole variant body are recognised only to be discarded. Anything that
//! is not an enum declaration is rejected as `NotAnEnum`.
//!
//! The grammar accepted is: whitespace, any number of `#[...]` attributes,
//! an optional `pub`, `pub(...)` visibility, the word `enum`, an ASCII
//! identifier, an optional `<...>` generic parameter list, an optional
//! `where` clause, and a braced body closing the text. Brackets inside
//! string and character literals do not count, and the `>` of `->` or `=>`
//! does not close a generic parameter list.

use vstd::prelude::*;

use crate::diag::{Diagnostic, ErrorKind, SrcSpan};
use crate::scan::{
    copy_range, ident_end, ident_end_x, is_ident_start, is_ident_start_x, kw_enum_at, kw_enum_x,
    kw_pub_at, kw_pub_x, kw_where_at, kw_where_x, lemma_scan_group_bounds, lemma_ws_end_bounds,
    scan_group, scan_group_x, ScanSt, ws_end, ws_end_x,
};

verus! {

/// The reduced identity of the input declaration: the text before the `enum`
/// keyword, the name, and where the name stood.
#[derive(Debug, PartialEq, Eq)]
pub struct DeclarationSkeleton {
    /// Attribute and visibility text standing before `enum`, verbatim.
    pub prefix: Vec<char>,
    /// The declaration's identifier.
    pub name: Vec<char>,
    /// The position of the identifier in the declaration text.
    pub name_span: SrcSpan,
}

/// The mathematical shape of a skeleton.
pub ghost struct SkeletonView {
    pub prefix: Seq<char>,
    pub name: Seq<char>,
    pub name_span: SrcSpan,
}

impl View for DeclarationSkeleton {
    type V = SkeletonView;

    open spec fn view(&self) -> SkeletonView {
        SkeletonView { prefix: self.prefix@, name: self.name@, name_span: self.name_span }
    }
}

/// The diagnostic for text that is not an enum declaration; its span is the
/// whole text, standing for the call site.
pub open spec fn not_an_enum(s: Seq<char>) -> Diagnostic {
    Diagnostic { kind: ErrorKind::NotAnEnum, span: SrcSpan { lo: 0, hi: s.len() as usize } }
}

/// The position after the run of `#[...]` attributes starting at `i` and the
/// whitespace following them, or `None` when an attribute is malformed or
/// unclosed.
pub open spec fn skip_attrs(s: Seq<char>, i: int) -> Option<int>
    decreases s.len() - i,
    via skip_attrs_decreases
{
    if i < 0 {
        None
    } else if i >= s.len() || s[i] != '#' {
        Some(i)
    } else {
        let j = ws_end(s, i + 1);
        if j < s.len() && s[j] == '[' {
            match scan_group(s, j + 1, 0, ScanSt::Normal, '[', ']') {
                Some(k) => skip_attrs(s, ws_end(s, k)),
                None => None,
            }
        } else {
            None
        }
    }
}

#[via_fn]
proof fn skip_attrs_decreases(s: Seq<char>, i: int) {
    if 0 <= i && i < s.len() && s[i] == '#' {
        let j = ws_end(s, i + 1);
        lemma_ws_end_bounds(s, i + 1);
        if j < s.len() && s[j] == '[' {
            lemma_scan_group_bounds(s, j + 1, 0, ScanSt::Normal, '[', ']');
            if let Some(k) = scan_group(s, j + 1, 0, ScanSt::Normal, '[', ']') {
                lemma_ws_end_bounds(s, k);
            }
        }
    }
}

/// The position after an optional `pub` or `pub(...)` visibility at `i` and
/// the whitespace following it, or `None` when its parentheses never close.
pub open spec fn skip_vis(s: Seq<char>, i: int) -> Option<int> {
    if kw_pub_at(s, i) {
        let j = ws_end(s, i + 3);
        if j < s.len() && s[j] == '(' {
            match scan_group(s, j + 1, 0, ScanSt::Normal, '(', ')') {
                Some(k) => Some(ws_end(s, k)),
                None => None,
            }
        } else {
            Some(j)
        }
    } else {
        Some(i)
    }
}

/// What parsing the text of a declaration yields: the skeleton of an enum
/// declaration, or `NotAnEnum`.
pub open spec fn parse_decl_spec(s: Seq<char>) -> Result<SkeletonView, Diagnostic> {
    let start = ws_end(s, 0);
    match skip_attrs(s, start) {
        None => Err(not_an_enum(s)),
        Some(a) => match skip_vis(s, a) {
            None => Err(not_an_enum(s)),
            Some(v) => if !kw_enum_at(s, v) {
                Err(not_an_enum(s))
            } else {
                let i0 = ws_end(s, v + 4);
                if !(i0 < s.len() && is_ident_start(s[i0])) {
                    Err(not_an_enum(s))
                } else {
                    let i1 = ident_end(s, i0);
                    let g = ws_end(s, i1);
                    let after_g = if g < s.len() && s[g] == '<' {
                        scan_group(s, g + 1, 0, ScanSt::Normal, '<', '>')
                    } else {
                        Some(g)
                    };
                    match after_g {
                        None => Err(not_an_enum(s)),
                        Some(p0) => {
                            let p = ws_end(s, p0);
                            let body_open = if p < s.len() && s[p] == '{' {
                                Some(p + 1)
                            } else if kw_where_at(s, p) {
                                // the open bracket never occurs: this scans to
                                // the first top-level `{`
                                scan_group(s, p + 5, 0, ScanSt::Normal, '\u{0}', '{')
                            } else {
                                None
                            };
                            match body_open {
                                None => Err(not_an_enum(s)),
                                Some(b) => match scan_group(s, b, 0, ScanSt::Normal, '{', '}') {
                                    None => Err(not_an_enum(s)),
                                    Some(e) => if ws_end(s, e) == s.len() {
                                        Ok(
                                            SkeletonView {
                                                prefix: s.subrange(start, v),
                                                name: s.subrange(i0, i1),
                                                name_span: SrcSpan {
                                                    lo: i0 as usize,
                                                    hi: i1 as usize,
                                                },
                                            },
                                        )
                                    } else {
                                        Err(not_an_enum(s))
                                    },
                                },
                            }
                        },
                    }
                }
            },
        },
    }
}

/// Executable counterpart of `skip_attrs`.
fn skip_attrs_x(s: &Vec<char>, from: usize) -> (r: Option<usize>)
    requires
        from <= s@.len(),
    ensures
        match r {
            Some(j) => skip_attrs(s@, from as int) == Some(j as int) && from <= j <= s@.len(),
            None => skip_attrs(s@, from as int) is None,
        },
{
    let mut i = from;
    loop
        invariant
            from <= i <= s@.len(),
            skip_attrs(s@, from as int) == skip_attrs(s@, i as int),
        decreases s@.len() - i,
    {
        if i >= s.len() {
            return Some(i);
        }
        if s[i] != '#' {
            return Some(i);
        }
        let j = ws_end_x(s, i + 1);
        if !(j < s.len() && s[j] == '[') {
            return None;
        }
        match scan_group_x(s, j + 1, '[', ']') {
            None => {
                return None;
            },
            Some(k) => {
                let k2 = ws_end_x(s, k);
                assert(skip_attrs(s@, i as int) == skip_attrs(s@, k2 as int));
                i = k2;
            },
        }
    }
}

/// Executable counterpart of `skip_vis`.
fn skip_vis_x(s: &Vec<char>, from: usize) -> (r: Option<usize>)
    requires
        from <= s@.len(),
    ensures
        match r {
            Some(j) => skip_vis(s@, from as int) == Some(j as int) && from <= j <= s@.len(),
            None => skip_vis(s@, from as int) is None,
        },
{
    if !kw_pub_x(s, from) {
        return Some(from);
    }
    let n = s.len();
    assert(from + 3 <= n);
    let j = ws_end_x(s, from + 3);
    if j < s.len() && s[j] == '(' {
        match scan_group_x(s, j + 1, '(', ')') {
            None => None,
            Some(k) => Some(ws_end_x(s, k)),
        }
    } else {
        Some(j)
    }
}

/// Parses the text of a declaration into its skeleton.
pub fn parse_decl(s: &Vec<char>) -> (r: Result<DeclarationSkeleton, Diagnostic>)
    ensures
        match r {
            Ok(sk) => parse_decl_spec(s@) == Ok::<SkeletonView, Diagnostic>(sk@),
            Err(d) => parse_decl_spec(s@) == Err::<SkeletonView, Diagnostic>(d),
        },
{
    let n = s.len();
    let start = ws_end_x(s, 0);
    let not_enum = Diagnostic::new(ErrorKind::NotAnEnum, 0, n);
    let a = match skip_attrs_x(s, start) {
        None => {
            return Err(not_enum);
        },
        Some(a) => a,
    };
    let v = match skip_vis_x(s, a) {
        None => {
            return Err(not_enum);
        },
        Some(v) => v,
    };
    if !kw_enum_x(s, v) {
        return Err(not_enum);
    }
    let i0 = ws_end_x(s, v + 4);
    if !(i0 < n && is_ident_start_x(s[i0])) {
        return Err(not_enum);
    }
    let i1 = ident_end_x(s, i0);
    let g = ws_end_x(s, i1);
    let after_g = if g < n && s[g] == '<' {
        match scan_group_x(s, g + 1, '<', '>') {
            None => {
                return Err(not_enum);
            },
            Some(p0) => p0,
        }
    } else {
        g
    };
    let p = ws_end_x(s, after_g);
    let body_open = if p < n && s[p] == '{' {
        p + 1
    } else if kw_where_x(s, p) {
        match scan_group_x(s, p + 5, '\u{0}', '{') {
            None => {
                return Err(not_enum);
            },
            Some(b) => b,
        }
    } else {
        return Err(not_enum);
    };
    let e = match scan_group_x(s, body_open, '{', '}') {
        None => {
            return Err(not_enum);
        },
        Some(e) => e,
    };
    if ws_end_x(s, e) != n {
        return Err(not_enum);
    }
    Ok(
        DeclarationSkeleton {
            prefix: copy_range(s, start, v),
            name: copy_range(s, i0, i1),
            name_span: SrcSpan { lo: i0, hi: i1 },
        },
    )
}

} // verus!
