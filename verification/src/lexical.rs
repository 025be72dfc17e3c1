//! Lexical primitives shared by the grammar: character classes, whitespace
//! and identifier scanning, and decimal numbers in both directions.

use vstd::prelude::*;

verus! {

/// Whitespace accepted between tokens.
pub open spec fn is_ws_char(c: char) -> bool {
    c == ' ' || c == '\t' || c == '\n' || c == '\r' || c == '\u{b}' || c == '\u{c}'
}

/// Characters that may start an identifier.
pub open spec fn is_ident_start_char(c: char) -> bool {
    ('a' <= c && c <= 'z') || ('A' <= c && c <= 'Z') || c == '_'
}

/// Characters that may continue an identifier.
pub open spec fn is_ident_cont_char(c: char) -> bool {
    is_ident_start_char(c) || is_digit_char(c)
}

/// Decimal digits.
pub open spec fn is_digit_char(c: char) -> bool {
    '0' <= c && c <= '9'
}

/// The numeric value of a digit character; zero for any other character.
pub open spec fn digit_val(c: char) -> nat {
    if is_digit_char(c) {
        (c as nat - 48) as nat
    } else {
        0
    }
}

/// The digit character for a value below ten.
pub open spec fn digit_char(d: nat) -> char {
    if d == 0 { '0' }
    else if d == 1 { '1' }
    else if d == 2 { '2' }
    else if d == 3 { '3' }
    else if d == 4 { '4' }
    else if d == 5 { '5' }
    else if d == 6 { '6' }
    else if d == 7 { '7' }
    else if d == 8 { '8' }
    else { '9' }
}

/// The first position at or after `pos` that does not hold whitespace.
pub open spec fn sp_skip_ws(s: Seq<char>, pos: int) -> int
    decreases s.len() - pos,
{
    if pos < s.len() && is_ws_char(s[pos]) {
        sp_skip_ws(s, pos + 1)
    } else {
        pos
    }
}

pub proof fn lemma_skip_ws_bounds(s: Seq<char>, pos: int)
    ensures
        pos <= sp_skip_ws(s, pos),
        pos <= s.len() ==> sp_skip_ws(s, pos) <= s.len(),
        sp_skip_ws(s, pos) < s.len() ==> !is_ws_char(s[sp_skip_ws(s, pos)]),
    decreases s.len() - pos,
{
    if pos < s.len() && is_ws_char(s[pos]) {
        lemma_skip_ws_bounds(s, pos + 1);
    }
}

/// The first position at or after `pos` that does not hold an identifier
/// character.
pub open spec fn sp_ident_end(s: Seq<char>, pos: int) -> int
    decreases s.len() - pos,
{
    if pos < s.len() && is_ident_cont_char(s[pos]) {
        sp_ident_end(s, pos + 1)
    } else {
        pos
    }
}

pub proof fn lemma_ident_end_bounds(s: Seq<char>, pos: int)
    ensures
        pos <= sp_ident_end(s, pos),
        pos <= s.len() ==> sp_ident_end(s, pos) <= s.len(),
    decreases s.len() - pos,
{
    if pos < s.len() && is_ident_cont_char(s[pos]) {
        lemma_ident_end_bounds(s, pos + 1);
    }
}

/// The identifier starting exactly at `pos`, if any: its text and its end.
pub open spec fn sp_ident_at(s: Seq<char>, pos: int) -> Option<(Seq<char>, int)> {
    if 0 <= pos < s.len() && is_ident_start_char(s[pos]) {
        Some((s.subrange(pos, sp_ident_end(s, pos)), sp_ident_end(s, pos)))
    } else {
        None
    }
}

/// The first position at or after `pos` that does not hold a digit.
pub open spec fn sp_digits_end(s: Seq<char>, pos: int) -> int
    decreases s.len() - pos,
{
    if pos < s.len() && is_digit_char(s[pos]) {
        sp_digits_end(s, pos + 1)
    } else {
        pos
    }
}

pub proof fn lemma_digits_end_bounds(s: Seq<char>, pos: int)
    ensures
        pos <= sp_digits_end(s, pos),
        pos <= s.len() ==> sp_digits_end(s, pos) <= s.len(),
    decreases s.len() - pos,
{
    if pos < s.len() && is_digit_char(s[pos]) {
        lemma_digits_end_bounds(s, pos + 1);
    }
}

/// The value of a run of digit characters read as a decimal number.
pub open spec fn sp_digits_val(s: Seq<char>) -> nat
    decreases s.len(),
{
    if s.len() == 0 {
        0
    } else {
        10 * sp_digits_val(s.drop_last()) + digit_val(s.last())
    }
}

/// A longer digit run never has a smaller value than its prefix.
pub proof fn lemma_digits_val_prefix(s: Seq<char>, i: int)
    requires
        0 <= i <= s.len(),
    ensures
        sp_digits_val(s) >= sp_digits_val(s.subrange(0, i)),
    decreases s.len(),
{
    if i < s.len() {
        assert(s.drop_last().subrange(0, i) =~= s.subrange(0, i));
        lemma_digits_val_prefix(s.drop_last(), i);
    } else {
        assert(s.subrange(0, i) =~= s);
    }
}

/// The decimal spelling of a number, most significant digit first.
pub open spec fn sp_number_text(n: nat) -> Seq<char>
    decreases n,
{
    if n < 10 {
        seq![digit_char(n)]
    } else {
        sp_number_text(n / 10) + seq![digit_char(n % 10)]
    }
}

fn is_ws(c: char) -> (r: bool)
    ensures
        r == is_ws_char(c),
{
    c == ' ' || c == '\t' || c == '\n' || c == '\r' || c == '\u{b}' || c == '\u{c}'
}

fn is_ident_start(c: char) -> (r: bool)
    ensures
        r == is_ident_start_char(c),
{
    ('a' <= c && c <= 'z') || ('A' <= c && c <= 'Z') || c == '_'
}

fn is_ident_cont(c: char) -> (r: bool)
    ensures
        r == is_ident_cont_char(c),
{
    is_ident_start(c) || is_digit(c)
}

fn is_digit(c: char) -> (r: bool)
    ensures
        r == is_digit_char(c),
{
    '0' <= c && c <= '9'
}

/// Advances past whitespace.
pub fn skip_ws(s: &str, pos: usize) -> (r: usize)
    requires
        pos <= s@.len(),
    ensures
        r == sp_skip_ws(s@, pos as int),
        pos <= r <= s@.len(),
{
    let n = s.unicode_len();
    let mut cur = pos;
    while cur < n && is_ws(s.get_char(cur))
        invariant
            pos <= cur <= n,
            n == s@.len(),
            sp_skip_ws(s@, pos as int) == sp_skip_ws(s@, cur as int),
        decreases n - cur,
    {
        cur = cur + 1;
    }
    cur
}

/// Advances past identifier characters.
pub fn ident_end(s: &str, pos: usize) -> (r: usize)
    requires
        pos <= s@.len(),
    ensures
        r == sp_ident_end(s@, pos as int),
        pos <= r <= s@.len(),
{
    let n = s.unicode_len();
    let mut cur = pos;
    while cur < n && is_ident_cont(s.get_char(cur))
        invariant
            pos <= cur <= n,
            n == s@.len(),
            sp_ident_end(s@, pos as int) == sp_ident_end(s@, cur as int),
        decreases n - cur,
    {
        cur = cur + 1;
    }
    cur
}

/// Returns the end of the identifier starting exactly at `pos`, if one starts
/// there.
pub fn ident_at(s: &str, pos: usize) -> (r: Option<usize>)
    requires
        pos <= s@.len(),
    ensures
        match r {
            Some(e) => sp_ident_at(s@, pos as int) == Some((
                s@.subrange(pos as int, e as int),
                e as int,
            )) && pos < e <= s@.len(),
            None => sp_ident_at(s@, pos as int) is None,
        },
{
    if pos < s.unicode_len() && is_ident_start(s.get_char(pos)) {
        let e = ident_end(s, pos);
        proof {
            lemma_ident_end_bounds(s@, pos + 1);
        }
        Some(e)
    } else {
        None
    }
}

/// Advances past digit characters.
pub fn digits_end(s: &str, pos: usize) -> (r: usize)
    requires
        pos <= s@.len(),
    ensures
        r == sp_digits_end(s@, pos as int),
        pos <= r <= s@.len(),
{
    let n = s.unicode_len();
    let mut cur = pos;
    while cur < n && is_digit(s.get_char(cur))
        invariant
            pos <= cur <= n,
            n == s@.len(),
            sp_digits_end(s@, pos as int) == sp_digits_end(s@, cur as int),
        decreases n - cur,
    {
        cur = cur + 1;
    }
    cur
}

/// Whether the characters of `s` between `start` and `end` spell exactly `t`.
pub fn span_eq(s: &str, start: usize, end: usize, t: &str) -> (r: bool)
    requires
        start <= end <= s@.len(),
    ensures
        r == (s@.subrange(start as int, end as int) == t@),
{
    let tn = t.unicode_len();
    if end - start != tn {
        proof {
            assert(s@.subrange(start as int, end as int).len() != t@.len());
        }
        return false;
    }
    let mut j: usize = 0;
    while j < tn
        invariant
            0 <= j <= tn,
            tn == t@.len(),
            end - start == tn,
            start <= end <= s@.len(),
            forall|k: int| 0 <= k < j ==> s@[start + k] == t@[k],
        decreases tn - j,
    {
        if s.get_char(start + j) != t.get_char(j) {
            proof {
                assert(s@.subrange(start as int, end as int)[j as int] != t@[j as int]);
            }
            return false;
        }
        j = j + 1;
    }
    proof {
        assert(s@.subrange(start as int, end as int) =~= t@);
    }
    true
}

/// Reads the digit run `s[start..end]` as a decimal number; `None` when its
/// value does not fit in `usize`.
pub fn parse_number(s: &str, start: usize, end: usize) -> (r: Option<usize>)
    requires
        start <= end <= s@.len(),
    ensures
        match r {
            Some(v) => v as nat == sp_digits_val(s@.subrange(start as int, end as int)),
            None => sp_digits_val(s@.subrange(start as int, end as int)) > usize::MAX,
        },
{
    let mut val: usize = 0;
    let mut i = start;
    while i < end
        invariant
            start <= i <= end <= s@.len(),
            val as nat == sp_digits_val(s@.subrange(start as int, i as int)),
        decreases end - i,
    {
        let c = s.get_char(i);
        let d = digit_value(c) as usize;
        proof {
            assert(s@.subrange(start as int, i + 1).drop_last() =~= s@.subrange(
                start as int,
                i as int,
            ));
            assert(s@.subrange(start as int, i + 1).last() == s@[i as int]);
        }
        if val > usize::MAX / 10 || (val == usize::MAX / 10 && d > usize::MAX % 10) {
            proof {
                lemma_overflow_step(val as nat, d as nat);
                lemma_digits_val_prefix(s@.subrange(start as int, end as int), i + 1 - start);
                assert(s@.subrange(start as int, end as int).subrange(0, i + 1 - start)
                    =~= s@.subrange(start as int, i + 1));
            }
            return None;
        }
        proof {
            lemma_no_overflow_step(val as nat, d as nat);
        }
        val = val * 10 + d;
        i = i + 1;
    }
    Some(val)
}

/// The numeric value of a digit character.
fn digit_value(c: char) -> (d: u8)
    ensures
        d as nat == digit_val(c),
        d <= 9,
{
    if c == '0' { 0 }
    else if c == '1' { 1 }
    else if c == '2' { 2 }
    else if c == '3' { 3 }
    else if c == '4' { 4 }
    else if c == '5' { 5 }
    else if c == '6' { 6 }
    else if c == '7' { 7 }
    else if c == '8' { 8 }
    else if c == '9' { 9 }
    else { 0 }
}

proof fn lemma_overflow_step(val: nat, d: nat)
    requires
        d <= 9,
        val > usize::MAX / 10 || (val == usize::MAX / 10 && d > usize::MAX % 10),
    ensures
        10 * val + d > usize::MAX,
{
    let m = usize::MAX as nat;
    assert(m == 10 * (m / 10) + m % 10) by (nonlinear_arith);
    if val > m / 10 {
        assert(10 * val >= 10 * (m / 10 + 1)) by (nonlinear_arith)
            requires val >= m / 10 + 1;
        assert(m % 10 <= 9) by (nonlinear_arith);
    }
}

proof fn lemma_no_overflow_step(val: nat, d: nat)
    requires
        d <= 9,
        !(val > usize::MAX / 10 || (val == usize::MAX / 10 && d > usize::MAX % 10)),
    ensures
        10 * val + d <= usize::MAX,
{
    let m = usize::MAX as nat;
    assert(m == 10 * (m / 10) + m % 10) by (nonlinear_arith);
    assert(10 * val <= 10 * (m / 10)) by (nonlinear_arith)
        requires val <= m / 10;
}

/// The digit character for a value below ten, as a string.
fn digit_str(d: usize) -> (r: &'static str)
    requires
        d <= 9,
    ensures
        r@ =~= seq![digit_char(d as nat)],
{
    proof {
        reveal_strlit("0");
        reveal_strlit("1");
        reveal_strlit("2");
        reveal_strlit("3");
        reveal_strlit("4");
        reveal_strlit("5");
        reveal_strlit("6");
        reveal_strlit("7");
        reveal_strlit("8");
        reveal_strlit("9");
    }
    if d == 0 { "0" }
    else if d == 1 { "1" }
    else if d == 2 { "2" }
    else if d == 3 { "3" }
    else if d == 4 { "4" }
    else if d == 5 { "5" }
    else if d == 6 { "6" }
    else if d == 7 { "7" }
    else if d == 8 { "8" }
    else { "9" }
}

/// Renders a number in decimal.
pub fn number_to_string(n: usize) -> (r: String)
    ensures
        r@ == sp_number_text(n as nat),
    decreases n,
{
    if n < 10 {
        digit_str(n).to_owned()
    } else {
        let mut s = number_to_string(n / 10);
        s.append(digit_str(n % 10));
        s
    }
}

} // verus!
