//! Decimal digits: the value of a digit run, and the decimal rendering of a
//! number.

use vstd::prelude::*;

verus! {

/// Whether `c` is a decimal digit.
pub open spec fn is_digit(c: char) -> bool {
    '0' <= c && c <= '9'
}

/// The numeric value of the digit `c`.
pub open spec fn digit_val(c: char) -> nat
    recommends
        is_digit(c),
{
    (c as nat - '0' as nat) as nat
}

/// The digit character for a value below ten.
pub open spec fn digit_char(d: nat) -> char
    recommends
        d < 10,
{
    if d == 0 { '0' }
    else if d == 1 { '1' }
    else if d == 2 { '2' }
    else if d == 3 { '3' }
    else if d == 4 { '4' }
    else if d == 5 { '5' }
    else if d == 6 { '6' }
    else if d == 7 { '7' }
    else if d == 8 { '8' }
    else { '9' }
}

/// Whether every character of `s` in `[i, j)` is a decimal digit.
pub open spec fn all_digits(s: Seq<char>, i: int, j: int) -> bool {
    forall|k: int| i <= k < j ==> is_digit(#[trigger] s[k])
}

/// The base-10 value of the digit run `s[i..j)`, most significant first.
pub open spec fn digits_value(s: Seq<char>, i: int, j: int) -> nat
    decreases j - i,
{
    if i >= j {
        0
    } else {
        digits_value(s, i, j - 1) * 10 + digit_val(s[j - 1])
    }
}

/// A longer digit run never has a smaller value: dropping trailing digits
/// cannot increase `digits_value`.
pub proof fn lemma_digits_value_monotone(s: Seq<char>, i: int, k: int, j: int)
    requires
        i <= k <= j,
    ensures
        digits_value(s, i, k) <= digits_value(s, i, j),
    decreases j - k,
{
    if k < j {
        lemma_digits_value_monotone(s, i, k, j - 1);
        assert(digits_value(s, i, j) == digits_value(s, i, j - 1) * 10 + digit_val(s[j - 1]));
        assert(digits_value(s, i, j - 1) * 10 >= digits_value(s, i, j - 1)) by (nonlinear_arith);
    }
}

/// Whether `c` is a decimal digit (executable form).
pub fn is_digit_x(c: char) -> (r: bool)
    ensures
        r == is_digit(c),
{
    '0' <= c && c <= '9'
}

/// Parses the digit run `s[i..j)` as a base-10 `usize`.
///
/// Returns `None` exactly when the value does not fit the machine word.
pub fn parse_digits(s: &Vec<char>, i: usize, j: usize) -> (r: Option<usize>)
    requires
        i <= j <= s@.len(),
        all_digits(s@, i as int, j as int),
    ensures
        r is Some <==> digits_value(s@, i as int, j as int) <= usize::MAX,
        r is Some ==> r.unwrap() == digits_value(s@, i as int, j as int),
{
    let mut acc: usize = 0;
    let mut k: usize = i;
    while k < j
        invariant
            i <= k <= j <= s@.len(),
            all_digits(s@, i as int, j as int),
            acc == digits_value(s@, i as int, k as int),
        decreases j - k,
    {
        let c = s[k];
        assert(is_digit(s@[k as int]));
        let d: usize = (c as usize) - ('0' as usize);
        assert(d == digit_val(s@[k as int]));
        if acc > (usize::MAX - d) / 10 {
            proof {
                let m = usize::MAX as int;
                let q = (m - d) / 10;
                vstd::arithmetic::div_mod::lemma_fundamental_div_mod(m - d, 10);
                assert(m - d == 10 * q + (m - d) % 10);
                assert(acc * 10 >= (q + 1) * 10) by (nonlinear_arith)
                    requires acc >= q + 1;
                assert(acc * 10 + d > m);
                assert(digits_value(s@, i as int, k as int + 1) > usize::MAX);
                lemma_digits_value_monotone(s@, i as int, k as int + 1, j as int);
            }
            return None;
        }
        proof {
            let m = usize::MAX as int;
            let q = (m - d) / 10;
            vstd::arithmetic::div_mod::lemma_fundamental_div_mod(m - d, 10);
            assert(acc * 10 <= q * 10) by (nonlinear_arith)
                requires acc <= q;
            assert(acc * 10 + d <= m);
        }
        acc = acc * 10 + d;
        k = k + 1;
    }
    Some(acc)
}

/// Whether every character of `s[i..j)` is a decimal digit (executable form).
pub fn all_digits_x(s: &Vec<char>, i: usize, j: usize) -> (r: bool)
    requires
        i <= j <= s@.len(),
    ensures
        r == all_digits(s@, i as int, j as int),
{
    let mut k = i;
    while k < j
        invariant
            i <= k <= j <= s@.len(),
            forall|t: int| i <= t < k ==> is_digit(#[trigger] s@[t]),
        decreases j - k,
    {
        if !is_digit_x(s[k]) {
            assert(!is_digit(s@[k as int]));
            return false;
        }
        k = k + 1;
    }
    true
}

/// The decimal rendering of `n`, most significant digit first, no padding and
/// no sign.
pub open spec fn decimal_of(n: nat) -> Seq<char>
    decreases n,
{
    if n < 10 {
        seq![digit_char(n)]
    } else {
        decimal_of(n / 10).push(digit_char(n % 10))
    }
}

/// The digit character for a value below ten (executable form).
fn digit_char_x(d: usize) -> (r: char)
    requires
        d < 10,
    ensures
        r == digit_char(d as nat),
{
    if d == 0 { '0' }
    else if d == 1 { '1' }
    else if d == 2 { '2' }
    else if d == 3 { '3' }
    else if d == 4 { '4' }
    else if d == 5 { '5' }
    else if d == 6 { '6' }
    else if d == 7 { '7' }
    else if d == 8 { '8' }
    else { '9' }
}

/// Renders `n` in decimal.
pub fn render_decimal(n: usize) -> (r: Vec<char>)
    ensures
        r@ == decimal_of(n as nat),
    decreases n,
{
    if n < 10 {
        let mut v: Vec<char> = Vec::new();
        v.push(digit_char_x(n));
        assert(v@ =~= decimal_of(n as nat));
        v
    } else {
        let mut v = render_decimal(n / 10);
        v.push(digit_char_x(n % 10));
        v
    }
}

} // verus!
