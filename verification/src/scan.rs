//! Character-level scanning over input text.
//!
//! The declarations handed to the transform arrive as plain text, so the
//! grammar the transform understands is defined here over sequences of
//! characters: whitespace runs, identifiers, the first `..` of a range, and
//! bracketed groups. Bracketed groups are scanned with a small state machine
//! that steps one character at a time and skips the contents of string and
//! character literals, so that a bracket inside `"..."` or `'...'` does not
//! count.

use vstd::prelude::*;

verus! {

/// Whether `c` is whitespace between tokens.
pub open spec fn is_ws(c: char) -> bool {
    c == ' ' || c == '\t' || c == '\n' || c == '\r'
}

/// Whether `c` may start an identifier.
pub open spec fn is_ident_start(c: char) -> bool {
    ('a' <= c && c <= 'z') || ('A' <= c && c <= 'Z') || c == '_'
}

/// Whether `c` may continue an identifier.
pub open spec fn is_ident_char(c: char) -> bool {
    is_ident_start(c) || ('0' <= c && c <= '9')
}

/// The first position at or after `i` holding a non-whitespace character, or
/// the length of `s` if only whitespace remains.
pub open spec fn ws_end(s: Seq<char>, i: int) -> int
    decreases s.len() - i,
{
    if 0 <= i && i < s.len() && is_ws(s[i]) {
        ws_end(s, i + 1)
    } else {
        i
    }
}

pub proof fn lemma_ws_end_bounds(s: Seq<char>, i: int)
    requires
        0 <= i <= s.len(),
    ensures
        i <= ws_end(s, i) <= s.len(),
    decreases s.len() - i,
{
    if i < s.len() && is_ws(s[i]) {
        lemma_ws_end_bounds(s, i + 1);
    }
}

/// The position just after the last non-whitespace character of `s[i..j)`,
/// or `i` if the region is all whitespace.
pub open spec fn trim_end(s: Seq<char>, i: int, j: int) -> int
    decreases j - i,
{
    if i < j && is_ws(s[j - 1]) {
        trim_end(s, i, j - 1)
    } else {
        j
    }
}

/// The position of the first `..` at or after `i`, or the length of `s` if
/// there is none.
pub open spec fn find_dotdot(s: Seq<char>, i: int) -> int
    decreases s.len() - i,
{
    if i < 0 || i + 1 >= s.len() {
        s.len() as int
    } else if s[i] == '.' && s[i + 1] == '.' {
        i
    } else {
        find_dotdot(s, i + 1)
    }
}

pub proof fn lemma_find_dotdot_bounds(s: Seq<char>, i: int)
    requires
        0 <= i <= s.len(),
    ensures
        i <= find_dotdot(s, i) <= s.len(),
        find_dotdot(s, i) < s.len() ==> find_dotdot(s, i) + 1 < s.len() && s[find_dotdot(s, i)]
            == '.' && s[find_dotdot(s, i) + 1] == '.',
    decreases s.len() - i,
{
    if i + 1 < s.len() && !(s[i] == '.' && s[i + 1] == '.') {
        lemma_find_dotdot_bounds(s, i + 1);
    }
}

/// No position of `s[i..j)` holds `..` exactly when `find_dotdot` runs past
/// `j - 1` from `i`.
pub proof fn lemma_find_dotdot_none(s: Seq<char>, i: int)
    requires
        0 <= i <= s.len(),
        forall|k: int| i <= k && k + 1 < s.len() ==> !(#[trigger] s[k] == '.' && s[k + 1] == '.'),
    ensures
        find_dotdot(s, i) == s.len(),
    decreases s.len() - i,
{
    if i + 1 < s.len() {
        assert(!(s[i] == '.' && s[i + 1] == '.'));
        lemma_find_dotdot_none(s, i + 1);
    }
}

/// `ws_end` never runs past a non-whitespace position.
pub proof fn lemma_ws_end_min(s: Seq<char>, i: int, p: int)
    requires
        0 <= i <= p < s.len(),
        !is_ws(s[p]),
    ensures
        ws_end(s, i) <= p,
    decreases p - i,
{
    if i < p && is_ws(s[i]) {
        lemma_ws_end_min(s, i + 1, p);
    }
}

/// The position just after the identifier characters starting at `i`.
pub open spec fn ident_end(s: Seq<char>, i: int) -> int
    decreases s.len() - i,
{
    if 0 <= i && i < s.len() && is_ident_char(s[i]) {
        ident_end(s, i + 1)
    } else {
        i
    }
}

/// Whether a word boundary follows position `j`: the end of the text or a
/// character that cannot continue an identifier.
pub open spec fn ident_boundary(s: Seq<char>, j: int) -> bool {
    j >= s.len() || !is_ident_char(s[j])
}

/// Whether the keyword `enum` stands at `i` as a whole word.
pub open spec fn kw_enum_at(s: Seq<char>, i: int) -> bool {
    0 <= i && i + 4 <= s.len() && s[i] == 'e' && s[i + 1] == 'n' && s[i + 2] == 'u'
        && s[i + 3] == 'm' && ident_boundary(s, i + 4)
}

/// Whether the keyword `pub` stands at `i` as a whole word.
pub open spec fn kw_pub_at(s: Seq<char>, i: int) -> bool {
    0 <= i && i + 3 <= s.len() && s[i] == 'p' && s[i + 1] == 'u' && s[i + 2] == 'b'
        && ident_boundary(s, i + 3)
}

/// Whether the keyword `where` stands at `i` as a whole word.
pub open spec fn kw_where_at(s: Seq<char>, i: int) -> bool {
    0 <= i && i + 5 <= s.len() && s[i] == 'w' && s[i + 1] == 'h' && s[i + 2] == 'e'
        && s[i + 3] == 'r' && s[i + 4] == 'e' && ident_boundary(s, i + 5)
}

/// The scanner's state while walking a bracketed group.
#[derive(Clone, Copy, Debug)]
pub enum ScanSt {
    /// Ordinary code between literals.
    Normal,
    /// Inside a string literal.
    InString,
    /// Inside a string literal, just after a backslash.
    StrEsc,
    /// Just after an opening single quote.
    Quote,
    /// Just after the backslash of an escaped character literal.
    CharEsc,
    /// Inside an escaped character literal, scanning for the closing quote.
    CharScan,
    /// One character after an opening single quote: either the quote closes a
    /// character literal here, or the quote started a lifetime.
    Quote1,
    /// Just after `-` or `=`, so that the `>` of `->` or `=>` does not close
    /// an angle-bracket group.
    Arrow,
}

/// Scans `s` from `i` for the `close` bracket that ends the current group,
/// and yields the position just after it. `depth` counts `open` brackets
/// still unclosed beyond the current group; string and character literals are
/// skipped, as is the `>` of `->` or `=>` when scanning an angle-bracket
/// group. Yields `None` when the text ends first.
pub open spec fn scan_group(
    s: Seq<char>,
    i: int,
    depth: nat,
    st: ScanSt,
    open: char,
    close: char,
) -> Option<int>
    decreases s.len() - i, 1int,
{
    if i < 0 || i >= s.len() {
        None
    } else {
        let c = s[i];
        match st {
            ScanSt::Normal => scan_normal(s, i, depth, open, close),
            ScanSt::InString => scan_group(
                s,
                i + 1,
                depth,
                if c == '\\' {
                    ScanSt::StrEsc
                } else if c == '"' {
                    ScanSt::Normal
                } else {
                    ScanSt::InString
                },
                open,
                close,
            ),
            ScanSt::StrEsc => scan_group(s, i + 1, depth, ScanSt::InString, open, close),
            ScanSt::Quote => scan_group(
                s,
                i + 1,
                depth,
                if c == '\\' {
                    ScanSt::CharEsc
                } else {
                    ScanSt::Quote1
                },
                open,
                close,
            ),
            ScanSt::CharEsc => scan_group(s, i + 1, depth, ScanSt::CharScan, open, close),
            ScanSt::CharScan => scan_group(
                s,
                i + 1,
                depth,
                if c == '\'' {
                    ScanSt::Normal
                } else {
                    ScanSt::CharScan
                },
                open,
                close,
            ),
            ScanSt::Quote1 => if c == '\'' {
                scan_group(s, i + 1, depth, ScanSt::Normal, open, close)
            } else {
                scan_normal(s, i, depth, open, close)
            },
            ScanSt::Arrow => if c == '>' && close == '>' {
                scan_group(s, i + 1, depth, ScanSt::Normal, open, close)
            } else {
                scan_normal(s, i, depth, open, close)
            },
        }
    }
}

/// One step of `scan_group` on a character of ordinary code.
pub open spec fn scan_normal(s: Seq<char>, i: int, depth: nat, open: char, close: char) -> Option<
    int,
>
    decreases s.len() - i, 0int,
{
    if i < 0 || i >= s.len() {
        None
    } else {
        let c = s[i];
        if c == '"' {
            scan_group(s, i + 1, depth, ScanSt::InString, open, close)
        } else if c == '\'' {
            scan_group(s, i + 1, depth, ScanSt::Quote, open, close)
        } else if c == '-' || c == '=' {
            scan_group(s, i + 1, depth, ScanSt::Arrow, open, close)
        } else if c == open {
            scan_group(s, i + 1, depth + 1, ScanSt::Normal, open, close)
        } else if c == close {
            if depth == 0 {
                Some(i + 1)
            } else {
                scan_group(s, i + 1, (depth - 1) as nat, ScanSt::Normal, open, close)
            }
        } else {
            scan_group(s, i + 1, depth, ScanSt::Normal, open, close)
        }
    }
}

pub proof fn lemma_scan_group_bounds(
    s: Seq<char>,
    i: int,
    depth: nat,
    st: ScanSt,
    open: char,
    close: char,
)
    ensures
        scan_group(s, i, depth, st, open, close) matches Some(j) ==> i < j <= s.len(),
        scan_normal(s, i, depth, open, close) matches Some(j) ==> i < j <= s.len(),
    decreases s.len() - i, 2int,
{
    if 0 <= i && i < s.len() {
        lemma_scan_group_bounds(s, i + 1, depth, ScanSt::Normal, open, close);
        lemma_scan_group_bounds(s, i + 1, depth, ScanSt::InString, open, close);
        lemma_scan_group_bounds(s, i + 1, depth, ScanSt::StrEsc, open, close);
        lemma_scan_group_bounds(s, i + 1, depth, ScanSt::Quote, open, close);
        lemma_scan_group_bounds(s, i + 1, depth, ScanSt::CharEsc, open, close);
        lemma_scan_group_bounds(s, i + 1, depth, ScanSt::CharScan, open, close);
        lemma_scan_group_bounds(s, i + 1, depth, ScanSt::Quote1, open, close);
        lemma_scan_group_bounds(s, i + 1, depth, ScanSt::Arrow, open, close);
        lemma_scan_group_bounds(s, i + 1, depth + 1, ScanSt::Normal, open, close);
        if depth > 0 {
            lemma_scan_group_bounds(s, i + 1, (depth - 1) as nat, ScanSt::Normal, open, close);
        }
    }
}

/// Executable counterpart of `ws_end`.
pub fn ws_end_x(s: &Vec<char>, from: usize) -> (r: usize)
    requires
        from <= s@.len(),
    ensures
        r == ws_end(s@, from as int),
        from <= r <= s@.len(),
{
    let mut i = from;
    loop
        invariant
            from <= i <= s@.len(),
            ws_end(s@, from as int) == ws_end(s@, i as int),
        decreases s@.len() - i,
    {
        if i >= s.len() {
            return i;
        }
        let c = s[i];
        if !(c == ' ' || c == '\t' || c == '\n' || c == '\r') {
            return i;
        }
        i = i + 1;
    }
}

/// Executable counterpart of `trim_end`.
pub fn trim_end_x(s: &Vec<char>, from: usize, to: usize) -> (r: usize)
    requires
        from <= to <= s@.len(),
    ensures
        r == trim_end(s@, from as int, to as int),
        from <= r <= to,
{
    let mut j = to;
    loop
        invariant
            from <= j <= to <= s@.len(),
            trim_end(s@, from as int, to as int) == trim_end(s@, from as int, j as int),
        decreases j,
    {
        if j <= from {
            return j;
        }
        let c = s[j - 1];
        if !(c == ' ' || c == '\t' || c == '\n' || c == '\r') {
            return j;
        }
        j = j - 1;
    }
}

/// Executable counterpart of `find_dotdot`.
pub fn find_dotdot_x(s: &Vec<char>, from: usize) -> (r: usize)
    requires
        from <= s@.len(),
    ensures
        r == find_dotdot(s@, from as int),
        from <= r <= s@.len(),
{
    let mut i = from;
    loop
        invariant
            from <= i <= s@.len(),
            find_dotdot(s@, from as int) == find_dotdot(s@, i as int),
        decreases s@.len() - i,
    {
        let n = s.len();
        if n == 0 || i >= n - 1 {
            return n;
        }
        if s[i] == '.' && s[i + 1] == '.' {
            return i;
        }
        i = i + 1;
    }
}

/// Whether `c` may start an identifier (executable form).
pub fn is_ident_start_x(c: char) -> (r: bool)
    ensures
        r == is_ident_start(c),
{
    ('a' <= c && c <= 'z') || ('A' <= c && c <= 'Z') || c == '_'
}

/// Whether `c` may continue an identifier (executable form).
pub fn is_ident_char_x(c: char) -> (r: bool)
    ensures
        r == is_ident_char(c),
{
    is_ident_start_x(c) || ('0' <= c && c <= '9')
}

/// Whether the keyword `enum` stands at `i` as a whole word (executable
/// form).
pub fn kw_enum_x(s: &Vec<char>, i: usize) -> (r: bool)
    requires
        i <= s@.len(),
    ensures
        r == kw_enum_at(s@, i as int),
{
    if s.len() - i < 4 {
        return false;
    }
    if !(s[i] == 'e' && s[i + 1] == 'n' && s[i + 2] == 'u' && s[i + 3] == 'm') {
        return false;
    }
    if i + 4 == s.len() {
        return true;
    }
    !is_ident_char_x(s[i + 4])
}

/// Whether the keyword `pub` stands at `i` as a whole word (executable
/// form).
pub fn kw_pub_x(s: &Vec<char>, i: usize) -> (r: bool)
    requires
        i <= s@.len(),
    ensures
        r == kw_pub_at(s@, i as int),
{
    if s.len() - i < 3 {
        return false;
    }
    if !(s[i] == 'p' && s[i + 1] == 'u' && s[i + 2] == 'b') {
        return false;
    }
    if i + 3 == s.len() {
        return true;
    }
    !is_ident_char_x(s[i + 3])
}

/// Whether the keyword `where` stands at `i` as a whole word (executable
/// form).
pub fn kw_where_x(s: &Vec<char>, i: usize) -> (r: bool)
    requires
        i <= s@.len(),
    ensures
        r == kw_where_at(s@, i as int),
{
    if s.len() - i < 5 {
        return false;
    }
    if !(s[i] == 'w' && s[i + 1] == 'h' && s[i + 2] == 'e' && s[i + 3] == 'r' && s[i + 4] == 'e') {
        return false;
    }
    if i + 5 == s.len() {
        return true;
    }
    !is_ident_char_x(s[i + 5])
}

/// Copies the characters of `s[i..j)`.
pub fn copy_range(s: &Vec<char>, i: usize, j: usize) -> (r: Vec<char>)
    requires
        i <= j <= s@.len(),
    ensures
        r@ == s@.subrange(i as int, j as int),
{
    let mut v: Vec<char> = Vec::new();
    let mut k = i;
    while k < j
        invariant
            i <= k <= j <= s@.len(),
            v@ == s@.subrange(i as int, k as int),
        decreases j - k,
    {
        v.push(s[k]);
        assert(s@.subrange(i as int, k as int).push(s@[k as int]) =~= s@.subrange(
            i as int,
            k as int + 1,
        ));
        k = k + 1;
    }
    v
}

/// Executable counterpart of `ident_end`.
pub fn ident_end_x(s: &Vec<char>, from: usize) -> (r: usize)
    requires
        from <= s@.len(),
    ensures
        r == ident_end(s@, from as int),
        from <= r <= s@.len(),
{
    let mut i = from;
    loop
        invariant
            from <= i <= s@.len(),
            ident_end(s@, from as int) == ident_end(s@, i as int),
        decreases s@.len() - i,
    {
        if i >= s.len() {
            return i;
        }
        let c = s[i];
        let cont = ('a' <= c && c <= 'z') || ('A' <= c && c <= 'Z') || c == '_' || ('0' <= c && c
            <= '9');
        if !cont {
            return i;
        }
        i = i + 1;
    }
}

/// Executable counterpart of `scan_group`, started on ordinary code with no
/// unclosed brackets beyond the current group.
pub fn scan_group_x(s: &Vec<char>, start: usize, open: char, close: char) -> (r: Option<usize>)
    requires
        start <= s@.len(),
    ensures
        match r {
            Some(j) => scan_group(s@, start as int, 0, ScanSt::Normal, open, close) == Some(
                j as int,
            ) && start < j <= s@.len(),
            None => scan_group(s@, start as int, 0, ScanSt::Normal, open, close) is None,
        },
{
    let mut i = start;
    let mut depth: usize = 0;
    let mut st = ScanSt::Normal;
    loop
        invariant
            start <= i <= s@.len(),
            depth <= i,
            scan_group(s@, start as int, 0, ScanSt::Normal, open, close) == scan_group(
                s@,
                i as int,
                depth as nat,
                st,
                open,
                close,
            ),
        decreases s@.len() - i,
    {
        if i >= s.len() {
            assert(scan_group(s@, i as int, depth as nat, st, open, close) is None);
            return None;
        }
        let c = s[i];
        let normal_like = match st {
            ScanSt::Normal => true,
            ScanSt::Quote1 => c != '\'',
            ScanSt::Arrow => !(c == '>' && close == '>'),
            _ => false,
        };
        let mut next_st = ScanSt::Normal;
        let mut next_depth = depth;
        if normal_like {
            proof {
                assert(scan_group(s@, i as int, depth as nat, st, open, close) == scan_normal(
                    s@,
                    i as int,
                    depth as nat,
                    open,
                    close,
                ));
            }
            if c == '"' {
                next_st = ScanSt::InString;
            } else if c == '\'' {
                next_st = ScanSt::Quote;
            } else if c == '-' || c == '=' {
                next_st = ScanSt::Arrow;
            } else if c == open {
                next_depth = depth + 1;
            } else if c == close {
                if depth == 0 {
                    assert(scan_normal(s@, i as int, depth as nat, open, close) == Some(
                        i as int + 1,
                    ));
                    return Some(i + 1);
                }
                next_depth = depth - 1;
            }
        } else {
            next_st = match st {
                ScanSt::InString => if c == '\\' {
                    ScanSt::StrEsc
                } else if c == '"' {
                    ScanSt::Normal
                } else {
                    ScanSt::InString
                },
                ScanSt::StrEsc => ScanSt::InString,
                ScanSt::Quote => if c == '\\' {
                    ScanSt::CharEsc
                } else {
                    ScanSt::Quote1
                },
                ScanSt::CharEsc => ScanSt::CharScan,
                ScanSt::CharScan => if c == '\'' {
                    ScanSt::Normal
                } else {
                    ScanSt::CharScan
                },
                ScanSt::Quote1 => ScanSt::Normal,
                ScanSt::Arrow => ScanSt::Normal,
                ScanSt::Normal => ScanSt::Normal,
            };
        }
        proof {
            assert(scan_group(s@, i as int, depth as nat, st, open, close) == scan_group(
                s@,
                i as int + 1,
                next_depth as nat,
                next_st,
                open,
                close,
            ));
        }
        st = next_st;
        depth = next_depth;
        i = i + 1;
    }
}

} // verus!
