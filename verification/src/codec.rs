//! The text (JSON) encoding of parameter schemas.
//!
//! A schema is written as a JSON array of tagged objects:
//! `{"type":"time"}`,
//! `{"type":"range_f32","min":0.0,"max":1.0,"default":0.5}`,
//! `{"type":"range_i32","min":0,"max":100,"default":50}`.
//! Decoding fails on an unknown tag, on a missing, repeated or ill-typed
//! field, and on any field this closed grammar does not know.
//!
//! The decoder is specified exactly by the `parse_*` specification
//! functions; the encoder produces the canonical text and carries, as part
//! of its contract, the proof that decoding its output gives the original
//! descriptor back.

use vstd::prelude::*;

use crate::schema::SchemaType;

verus! {

// ---------------------------------------------------------------------------
// Character classes and scans
// ---------------------------------------------------------------------------

/// JSON whitespace.
pub open spec fn is_ws(c: char) -> bool {
    c == ' ' || c == '\t' || c == '\n' || c == '\r'
}

/// A decimal digit.
pub open spec fn is_digit(c: char) -> bool {
    '0' as u32 <= c as u32 && c as u32 <= '9' as u32
}

/// A character that can occur in a JSON number token.
pub open spec fn is_num_char(c: char) -> bool {
    is_digit(c) || c == '-' || c == '+' || c == '.' || c == 'e' || c == 'E'
}

/// The first index at or after `i` holding a non-whitespace character, or
/// `s.len()`.
pub open spec fn ws_end(s: Seq<char>, i: int) -> int
    recommends
        0 <= i <= s.len(),
    decreases s.len() - i when 0 <= i <= s.len()
{
    if i < s.len() && is_ws(s[i]) {
        ws_end(s, i + 1)
    } else {
        i
    }
}

pub proof fn lemma_ws_end_bounds(s: Seq<char>, i: int)
    requires
        0 <= i <= s.len(),
    ensures
        i <= ws_end(s, i) <= s.len(),
    decreases s.len() - i,
{
    if i < s.len() && is_ws(s[i]) {
        lemma_ws_end_bounds(s, i + 1);
    }
}

/// The first index at or after `i` holding a character that cannot occur in
/// a number token, or `s.len()`.
pub open spec fn num_end(s: Seq<char>, i: int) -> int
    recommends
        0 <= i <= s.len(),
    decreases s.len() - i when 0 <= i <= s.len()
{
    if i < s.len() && is_num_char(s[i]) {
        num_end(s, i + 1)
    } else {
        i
    }
}

pub proof fn lemma_num_end_bounds(s: Seq<char>, i: int)
    requires
        0 <= i <= s.len(),
    ensures
        i <= num_end(s, i) <= s.len(),
    decreases s.len() - i,
{
    if i < s.len() && is_num_char(s[i]) {
        lemma_num_end_bounds(s, i + 1);
    }
}

/// A maximal run of number characters ends exactly where the run ends.
pub proof fn lemma_num_end_exact(s: Seq<char>, i: int, j: int)
    requires
        0 <= i <= j <= s.len(),
        forall|k: int| i <= k < j ==> is_num_char(#[trigger] s[k]),
        j < s.len() ==> !is_num_char(s[j]),
    ensures
        num_end(s, i) == j,
    decreases j - i,
{
    if i < j {
        lemma_num_end_exact(s, i + 1, j);
    }
}

/// The first index at or after `i` holding a non-digit, or `s.len()`.
pub open spec fn digits_end(s: Seq<char>, i: int) -> int
    recommends
        0 <= i <= s.len(),
    decreases s.len() - i when 0 <= i <= s.len()
{
    if i < s.len() && is_digit(s[i]) {
        digits_end(s, i + 1)
    } else {
        i
    }
}

pub proof fn lemma_digits_end_bounds(s: Seq<char>, i: int)
    requires
        0 <= i <= s.len(),
    ensures
        i <= digits_end(s, i) <= s.len(),
    decreases s.len() - i,
{
    if i < s.len() && is_digit(s[i]) {
        lemma_digits_end_bounds(s, i + 1);
    }
}

/// A maximal digit run ends exactly where the run ends.
pub proof fn lemma_digits_end_exact(s: Seq<char>, i: int, j: int)
    requires
        0 <= i <= j <= s.len(),
        forall|k: int| i <= k < j ==> is_digit(#[trigger] s[k]),
        j < s.len() ==> !is_digit(s[j]),
    ensures
        digits_end(s, i) == j,
    decreases j - i,
{
    if i < j {
        lemma_digits_end_exact(s, i + 1, j);
    }
}

/// The token is a number of the JSON grammar: an optional minus, an integer
/// part without superfluous leading zero, an optional fraction with at least
/// one digit, an optional exponent with optional sign and at least one
/// digit, and nothing else.
pub open spec fn json_number(t: Seq<char>) -> bool {
    let b: int = if t.len() > 0 && t[0] == '-' {
        1
    } else {
        0
    };
    if t.len() <= b || !is_digit(t[b]) {
        false
    } else {
        let ie: int = if t[b] == '0' {
            b + 1
        } else {
            digits_end(t, b)
        };
        if ie < t.len() && t[ie] == '.' {
            let fe = digits_end(t, ie + 1);
            fe > ie + 1 && json_exp_ok(t, fe)
        } else {
            json_exp_ok(t, ie)
        }
    }
}

/// From index `i`, the token holds either nothing more or a full exponent
/// part.
pub open spec fn json_exp_ok(t: Seq<char>, i: int) -> bool {
    if i == t.len() {
        true
    } else if 0 <= i < t.len() && (t[i] == 'e' || t[i] == 'E') {
        let es: int = if i + 1 < t.len() && (t[i + 1] == '+' || t[i + 1] == '-') {
            i + 2
        } else {
            i + 1
        };
        es < t.len() && digits_end(t, es) == t.len()
    } else {
        false
    }
}

/// Scan a digit run from `i`.
pub fn scan_digits(v: &Vec<char>, i: usize) -> (r: usize)
    requires
        i <= v@.len(),
    ensures
        r == digits_end(v@, i as int),
        i <= r <= v@.len(),
{
    let mut j: usize = i;
    while j < v.len() && is_digit_exec(v[j])
        invariant
            i <= j <= v@.len(),
            digits_end(v@, i as int) == digits_end(v@, j as int),
        decreases v@.len() - j,
    {
        j = j + 1;
    }
    j
}

/// Decide a decimal digit.
pub fn is_digit_exec(c: char) -> (r: bool)
    ensures
        r == is_digit(c),
{
    let u = c as u32;
    '0' as u32 <= u && u <= '9' as u32
}

/// Decide whether the whole token is a number of the JSON grammar.
pub fn is_json_number(v: &Vec<char>) -> (r: bool)
    ensures
        r == json_number(v@),
{
    let b: usize = if v.len() > 0 && v[0] == '-' {
        1
    } else {
        0
    };
    if v.len() <= b || !is_digit_exec(v[b]) {
        return false;
    }
    let ie: usize = if v[b] == '0' {
        b + 1
    } else {
        scan_digits(v, b)
    };
    if ie < v.len() && v[ie] == '.' {
        let fe = scan_digits(v, ie + 1);
        fe > ie + 1 && json_exp_ok_exec(v, fe)
    } else {
        json_exp_ok_exec(v, ie)
    }
}

/// Decide the exponent tail.
fn json_exp_ok_exec(v: &Vec<char>, i: usize) -> (r: bool)
    requires
        i <= v@.len(),
    ensures
        r == json_exp_ok(v@, i as int),
{
    if i == v.len() {
        true
    } else if v[i] == 'e' || v[i] == 'E' {
        let es: usize = if i + 1 < v.len() && (v[i + 1] == '+' || v[i + 1] == '-') {
            i + 2
        } else {
            i + 1
        };
        es < v.len() && scan_digits(v, es) == v.len()
    } else {
        false
    }
}

/// A non-empty all-digit token without a superfluous leading zero is a JSON
/// number.
pub proof fn lemma_digits_json_number(t: Seq<char>, neg: bool)
    requires
        ({
            let b: int = if neg {
                1
            } else {
                0
            };
            &&& t.len() > b
            &&& (neg ==> t[0] == '-')
            &&& (!neg ==> t[0] != '-')
            &&& forall|k: int| b <= k < t.len() ==> is_digit(#[trigger] t[k])
            &&& (t[b] == '0' ==> t.len() == b + 1)
        }),
    ensures
        json_number(t),
{
    let b: int = if neg {
        1
    } else {
        0
    };
    assert(!is_digit('-')) by {
        assert('-' as u32 == 45 && '0' as u32 == 48 && '9' as u32 == 57);
    }
    if t[b] == '0' {
        assert(json_exp_ok(t, b + 1));
    } else {
        lemma_digits_end_exact(t, b, t.len() as int);
        assert(json_exp_ok(t, t.len() as int));
    }
}

/// Skip whitespace from `i`.
pub fn skip_ws(v: &Vec<char>, i: usize) -> (r: usize)
    requires
        i <= v@.len(),
    ensures
        r == ws_end(v@, i as int),
        i <= r <= v@.len(),
{
    let mut j: usize = i;
    while j < v.len() && is_ws_exec(v[j])
        invariant
            i <= j <= v@.len(),
            ws_end(v@, i as int) == ws_end(v@, j as int),
        decreases v@.len() - j,
    {
        j = j + 1;
    }
    j
}

/// Scan a number token from `i`.
pub fn scan_num(v: &Vec<char>, i: usize) -> (r: usize)
    requires
        i <= v@.len(),
    ensures
        r == num_end(v@, i as int),
        i <= r <= v@.len(),
{
    let mut j: usize = i;
    while j < v.len() && is_num_char_exec(v[j])
        invariant
            i <= j <= v@.len(),
            num_end(v@, i as int) == num_end(v@, j as int),
        decreases v@.len() - j,
    {
        j = j + 1;
    }
    j
}

/// Decide JSON whitespace.
pub fn is_ws_exec(c: char) -> (r: bool)
    ensures
        r == is_ws(c),
{
    c == ' ' || c == '\t' || c == '\n' || c == '\r'
}

/// Decide whether `c` can occur in a number token.
pub fn is_num_char_exec(c: char) -> (r: bool)
    ensures
        r == is_num_char(c),
{
    let u = c as u32;
    ('0' as u32 <= u && u <= '9' as u32) || c == '-' || c == '+' || c == '.' || c == 'e'
        || c == 'E'
}

/// `lit` occurs in `s` starting at index `i`.
pub open spec fn matches_at(s: Seq<char>, i: int, lit: Seq<char>) -> bool {
    0 <= i && i + lit.len() <= s.len() && s.subrange(i, i + lit.len() as int) == lit
}

/// Decide whether the literal occurs at index `i`.
pub fn match_lit(v: &Vec<char>, i: usize, lit: &str) -> (r: bool)
    requires
        i <= v@.len(),
    ensures
        r == matches_at(v@, i as int, lit@),
{
    let n = lit.unicode_len();
    let vn = v.len();
    if n > vn - i {
        proof {
            assert(!matches_at(v@, i as int, lit@));
        }
        return false;
    }
    let mut j: usize = 0;
    while j < n
        invariant
            0 <= j <= n,
            n == lit@.len(),
            vn == v@.len(),
            i + n <= vn,
            forall|k: int| 0 <= k < j ==> v@[i + k] == lit@[k],
        decreases n - j,
    {
        if v[i + j] != lit.get_char(j) {
            proof {
                assert(v@.subrange(i as int, i + lit@.len() as int)[j as int] == v@[i + j]);
                assert(v@.subrange(i as int, i + lit@.len() as int) != lit@);
            }
            return false;
        }
        j = j + 1;
    }
    proof {
        assert(v@.subrange(i as int, i + lit@.len() as int) =~= lit@);
    }
    true
}

// ---------------------------------------------------------------------------
// Decimal integers
// ---------------------------------------------------------------------------

/// Every character of `s` is a digit.
pub open spec fn all_digits(s: Seq<char>) -> bool {
    forall|k: int| 0 <= k < s.len() ==> is_digit(#[trigger] s[k])
}

/// The numeric value of one digit character.
pub open spec fn digit_val(c: char) -> int {
    c as u32 - '0' as u32
}

/// The value of a digit string, most significant digit first.
pub open spec fn digits_val(s: Seq<char>) -> int
    decreases s.len(),
{
    if s.len() == 0 {
        0
    } else {
        digits_val(s.drop_last()) * 10 + digit_val(s.last())
    }
}

/// Digit strings have non-negative values that only grow as digits are
/// appended.
pub proof fn lemma_digits_val_bounds(s: Seq<char>)
    requires
        all_digits(s),
    ensures
        digits_val(s) >= 0,
    decreases s.len(),
{
    if s.len() > 0 {
        assert(all_digits(s.drop_last()));
        lemma_digits_val_bounds(s.drop_last());
        assert(is_digit(s.last()));
    }
}

/// Once a digit prefix exceeds a non-negative bound, the whole string does.
pub proof fn lemma_digits_val_monotone(s: Seq<char>, i: int, bound: int)
    requires
        all_digits(s),
        0 <= i <= s.len(),
        bound >= 0,
        digits_val(s.subrange(0, i)) > bound,
    ensures
        digits_val(s) > bound,
    decreases s.len() - i,
{
    if i < s.len() {
        let t = s.subrange(0, i + 1);
        assert(t.drop_last() =~= s.subrange(0, i));
        assert(all_digits(s.subrange(0, i)));
        lemma_digits_val_bounds(s.subrange(0, i));
        assert(is_digit(s[i]));
        assert(digits_val(t) == digits_val(s.subrange(0, i)) * 10 + digit_val(t.last()));
        assert(digits_val(t) > bound);
        lemma_digits_val_monotone(s, i + 1, bound);
    } else {
        assert(s.subrange(0, i) =~= s);
    }
}

/// The value of a number token read as a 32-bit integer: an optional minus
/// sign followed by at least one digit, in range.  Leading zeros are
/// tolerated.
pub open spec fn parse_i32_token(s: Seq<char>) -> Option<i32> {
    if s.len() > 0 && s[0] == '-' {
        let d = s.subrange(1, s.len() as int);
        if d.len() > 0 && all_digits(d) && -digits_val(d) >= i32::MIN {
            Some((-digits_val(d)) as i32)
        } else {
            None
        }
    } else {
        if s.len() > 0 && all_digits(s) && digits_val(s) <= i32::MAX {
            Some(digits_val(s) as i32)
        } else {
            None
        }
    }
}

/// Read the token at `v[start..end]` as a 32-bit integer.
#[verifier::loop_isolation(false)]
pub fn parse_i32_chars(v: &Vec<char>, start: usize, end: usize) -> (r: Option<i32>)
    requires
        start <= end <= v@.len(),
    ensures
        r == parse_i32_token(v@.subrange(start as int, end as int)),
{
    let ghost tok = v@.subrange(start as int, end as int);
    if start == end {
        return None;
    }
    let neg = v[start] == '-';
    proof {
        assert(tok[0] == v@[start as int]);
        assert(tok.len() == end - start);
    }
    let dstart: usize = if neg {
        start + 1
    } else {
        start
    };
    let ghost d = v@.subrange(dstart as int, end as int);
    proof {
        if neg {
            assert(tok.subrange(1, tok.len() as int) =~= d);
        } else {
            assert(tok =~= d);
        }
    }
    if dstart == end {
        return None;
    }
    let mut acc: u64 = 0;
    let mut i: usize = dstart;
    while i < end
        invariant
            dstart <= i <= end <= v@.len(),
            d == v@.subrange(dstart as int, end as int),
            end > dstart,
            all_digits(v@.subrange(dstart as int, i as int)),
            acc == digits_val(v@.subrange(dstart as int, i as int)),
            acc <= 0x80000000u64,
        decreases end - i,
    {
        let c = v[i];
        let u = c as u32;
        if !('0' as u32 <= u && u <= '9' as u32) {
            proof {
                assert(d[i - dstart] == v@[i as int]);
                assert(!is_digit(v@[i as int]));
                assert(!all_digits(d));
                if neg {
                    assert(tok.len() > 0 && tok[0] == '-');
                    assert(tok.subrange(1, tok.len() as int) == d);
                } else {
                    assert(tok == d);
                }
                assert(parse_i32_token(tok) is None);
            }
            return None;
        }
        let dv: u64 = (u - '0' as u32) as u64;
        let next: u64 = acc * 10 + dv;
        proof {
            let p = v@.subrange(dstart as int, i as int);
            let q = v@.subrange(dstart as int, i as int + 1);
            assert(q.drop_last() =~= p);
            assert(q.last() == v@[i as int]);
            assert(is_digit(v@[i as int]));
            assert(dv == digit_val(v@[i as int]));
            assert(digits_val(q) == digits_val(p) * 10 + digit_val(v@[i as int]));
            assert(forall|k: int| 0 <= k < q.len() - 1 ==> q[k] == #[trigger] p[k]);
            assert(all_digits(q));
            assert(next == digits_val(q));
        }
        if next > 0x80000000u64 {
            proof {
                let q = v@.subrange(dstart as int, i as int + 1);
                if all_digits(d) {
                    assert(q =~= d.subrange(0, i + 1 - dstart));
                    lemma_digits_val_monotone(d, i + 1 - dstart, 0x80000000);
                    lemma_digits_val_bounds(d);
                }
            }
            return None;
        }
        acc = next;
        i = i + 1;
    }
    proof {
        assert(v@.subrange(dstart as int, end as int) =~= d);
    }
    if neg {
        if acc > 0x80000000u64 {
            return None;
        }
        Some((-(acc as i64)) as i32)
    } else {
        if acc > 0x7fffffffu64 {
            return None;
        }
        Some(acc as i32)
    }
}

/// The digit character for one digit value.
pub open spec fn digit_char(n: int) -> char {
    if n == 0 {
        '0'
    } else if n == 1 {
        '1'
    } else if n == 2 {
        '2'
    } else if n == 3 {
        '3'
    } else if n == 4 {
        '4'
    } else if n == 5 {
        '5'
    } else if n == 6 {
        '6'
    } else if n == 7 {
        '7'
    } else if n == 8 {
        '8'
    } else {
        '9'
    }
}

/// The decimal text of a non-negative integer.
pub open spec fn u32_text(n: int) -> Seq<char>
    recommends
        n >= 0,
    decreases n,
{
    if n < 10 {
        seq![digit_char(n)]
    } else {
        u32_text(n / 10) + seq![digit_char(n % 10)]
    }
}

/// The decimal text of a 32-bit integer.
pub open spec fn i32_text(v: int) -> Seq<char> {
    if v < 0 {
        seq!['-'] + u32_text(-v)
    } else {
        u32_text(v)
    }
}

/// Decimal text consists of digits, is non-empty, and reads back as the
/// number it was made from.
pub proof fn lemma_u32_text_val(n: int)
    requires
        0 <= n,
    ensures
        u32_text(n).len() > 0,
        all_digits(u32_text(n)),
        digits_val(u32_text(n)) == n,
    decreases n,
{
    assert('0' as u32 == 48 && '1' as u32 == 49 && '2' as u32 == 50 && '3' as u32 == 51
        && '4' as u32 == 52 && '5' as u32 == 53 && '6' as u32 == 54 && '7' as u32 == 55
        && '8' as u32 == 56 && '9' as u32 == 57);
    if n < 10 {
        assert(u32_text(n) =~= seq![digit_char(n)]);
        assert(u32_text(n).drop_last() =~= Seq::<char>::empty());
        assert(is_digit(digit_char(n)));
        assert(digit_val(digit_char(n)) == n);
        assert(digits_val(u32_text(n)) == digits_val(Seq::<char>::empty()) * 10 + digit_val(
            digit_char(n),
        ));
    } else {
        lemma_u32_text_val(n / 10);
        let t = u32_text(n);
        assert(t =~= u32_text(n / 10) + seq![digit_char(n % 10)]);
        assert(t.drop_last() =~= u32_text(n / 10));
        assert(t.last() == digit_char(n % 10));
        assert(is_digit(digit_char(n % 10)));
        assert(digit_val(digit_char(n % 10)) == n % 10);
        assert(digits_val(t) == digits_val(u32_text(n / 10)) * 10 + (n % 10));
        assert(digits_val(t) == (n / 10) * 10 + (n % 10));
        assert((n / 10) * 10 + (n % 10) == n) by (nonlinear_arith)
            requires
                n >= 0,
        ;
        assert(all_digits(t)) by {
            assert(forall|k: int|
                0 <= k < t.len() - 1 ==> t[k] == #[trigger] u32_text(n / 10)[k]);
        }
    }
}

/// Decimal text never starts with a superfluous zero.
pub proof fn lemma_u32_text_lead(n: int)
    requires
        0 <= n,
    ensures
        u32_text(n).len() > 0,
        u32_text(n)[0] == '0' ==> n == 0,
    decreases n,
{
    if n < 10 {
        assert(u32_text(n) =~= seq![digit_char(n)]);
    } else {
        lemma_u32_text_lead(n / 10);
        assert(u32_text(n)[0] == u32_text(n / 10)[0]);
    }
}

/// Decimal integer text is a number of the JSON grammar.
pub proof fn lemma_i32_text_json(v: int)
    requires
        i32::MIN <= v <= i32::MAX,
    ensures
        json_number(i32_text(v)),
{
    let t = i32_text(v);
    assert('-' as u32 == 45 && '0' as u32 == 48 && '9' as u32 == 57);
    if v < 0 {
        lemma_u32_text_val(-v);
        lemma_u32_text_lead(-v);
        assert(t[0] == '-');
        assert(forall|k: int| 1 <= k < t.len() ==> t[k] == #[trigger] u32_text(-v)[k - 1]);
        assert(t[1] != '0');
        lemma_digits_json_number(t, true);
    } else {
        lemma_u32_text_val(v);
        lemma_u32_text_lead(v);
        assert(t =~= u32_text(v));
        assert(is_digit(t[0]));
        assert(t[0] != '-');
        if t[0] == '0' {
            assert(v == 0);
            assert(t.len() == 1);
        }
        lemma_digits_json_number(t, false);
    }
}

/// Decimal integer text parses back to the integer.
pub proof fn lemma_i32_text_parse(v: int)
    requires
        i32::MIN <= v <= i32::MAX,
    ensures
        i32_text(v).len() > 0,
        forall|k: int| 0 <= k < i32_text(v).len() ==> is_num_char(#[trigger] i32_text(v)[k]),
        parse_i32_token(i32_text(v)) == Some(v as i32),
{
    let t = i32_text(v);
    if v < 0 {
        lemma_u32_text_val(-v);
        assert(t[0] == '-');
        assert(t.subrange(1, t.len() as int) =~= u32_text(-v));
        assert(forall|k: int| 1 <= k < t.len() ==> t[k] == #[trigger] u32_text(-v)[k - 1]);
        assert(forall|k: int| 0 <= k < t.len() ==> is_num_char(#[trigger] t[k]));
        assert(parse_i32_token(t) == Some((-digits_val(u32_text(-v))) as i32));
    } else {
        lemma_u32_text_val(v);
        assert(t =~= u32_text(v));
        assert(is_digit(t[0]));
        assert(t[0] != '-');
        assert(forall|k: int| 0 <= k < t.len() ==> is_num_char(#[trigger] t[k]));
    }
}

/// The exec digit character for one digit value.
pub fn digit_char_exec(n: u32) -> (r: char)
    requires
        n < 10,
    ensures
        r == digit_char(n as int),
{
    if n == 0 {
        '0'
    } else if n == 1 {
        '1'
    } else if n == 2 {
        '2'
    } else if n == 3 {
        '3'
    } else if n == 4 {
        '4'
    } else if n == 5 {
        '5'
    } else if n == 6 {
        '6'
    } else if n == 7 {
        '7'
    } else if n == 8 {
        '8'
    } else {
        '9'
    }
}

/// Append the decimal text of `n` to `out`.
pub fn push_u32_text(out: &mut Vec<char>, n: u32)
    ensures
        final(out)@ == old(out)@ + u32_text(n as int),
    decreases n,
{
    if n < 10 {
        out.push(digit_char_exec(n));
        proof {
            assert(final(out)@ =~= old(out)@ + u32_text(n as int));
        }
    } else {
        push_u32_text(out, n / 10);
        out.push(digit_char_exec(n % 10));
        proof {
            assert(final(out)@ =~= old(out)@ + u32_text(n as int));
        }
    }
}

/// Append the decimal text of a 32-bit integer to `out`.
pub fn push_i32_text(out: &mut Vec<char>, v: i32)
    ensures
        final(out)@ == old(out)@ + i32_text(v as int),
{
    if v < 0 {
        out.push('-');
        let m: u32 = if v == i32::MIN {
            0x80000000u32
        } else {
            (-v) as u32
        };
        push_u32_text(out, m);
        proof {
            assert(final(out)@ =~= old(out)@ + i32_text(v as int));
        }
    } else {
        push_u32_text(out, v as u32);
    }
}

// ---------------------------------------------------------------------------
// 32-bit float text (trusted: the outside crates do the float arithmetic)
// ---------------------------------------------------------------------------

/// The canonical decimal text of the 32-bit float with the given bit
/// pattern, as the JSON serializer writes it.
pub uninterp spec fn f32_text(bits: u32) -> Seq<char>;

/// The bit pattern of the 32-bit float a number token reads as, if any.
pub uninterp spec fn f32_of_text(s: Seq<char>) -> Option<u32>;

/// The bit pattern encodes a finite float: its exponent bits are not all
/// ones.
pub open spec fn f32_is_finite(bits: u32) -> bool {
    bits & 0x7f800000u32 != 0x7f800000u32
}

/// Relies on `serde_json::to_string` for `f32` values: a finite float is
/// written as a number of the JSON grammar, in the shortest decimal form
/// that reads back, under correct rounding, as the same float (a non-finite
/// float is written as `null`).
#[verifier::external_body]
fn format_f32(bits: u32) -> (r: String)
    ensures
        r@ == f32_text(bits),
        f32_is_finite(bits) ==> {
            &&& r@.len() > 0
            &&& forall|k: int| 0 <= k < r@.len() ==> is_num_char(#[trigger] r@[k])
            &&& json_number(r@)
            &&& f32_of_text(r@) == Some(bits)
        },
{
    let x = wasmi::core::F32::from_bits(bits).to_float();
    serde_json::to_string(&x).unwrap_or_default()
}

/// Relies on `str::parse` for 32-bit floats: reads a decimal or exponent
/// number token, correctly rounded; fails on anything else.
#[verifier::external_body]
fn parse_f32_chars(v: &Vec<char>) -> (r: Option<u32>)
    ensures
        r == f32_of_text(v@),
{
    let s: String = v.iter().collect();
    match s.parse() {
        Ok(f) => Some(wasmi::core::F32::from_float(f).to_bits()),
        Err(_) => None,
    }
}

// ---------------------------------------------------------------------------
// The schema grammar
// ---------------------------------------------------------------------------

/// The three tags a descriptor object can carry.
#[derive(Debug, Clone, Copy, PartialEq, Eq, Structural)]
pub enum Tag {
    Time,
    RangeF32,
    RangeI32,
}

/// The raw fields collected while reading one descriptor object: the tag,
/// and the number tokens of the three range fields.
pub struct RawFields {
    pub ty: Option<Tag>,
    pub min: Option<Seq<char>>,
    pub max: Option<Seq<char>>,
    pub default: Option<Seq<char>>,
}

/// No field seen yet.
pub open spec fn empty_fields() -> RawFields {
    RawFields { ty: None, min: None, max: None, default: None }
}

/// After an object key, a colon and a number token: the token and the index
/// past it.
pub open spec fn parse_num_field(s: Seq<char>, i: int) -> Option<(Seq<char>, int)> {
    let j = ws_end(s, i);
    if j < s.len() && s[j] == ':' {
        let k = ws_end(s, j + 1);
        let e = num_end(s, k);
        if e > k {
            Some((s.subrange(k, e), e))
        } else {
            None
        }
    } else {
        None
    }
}

/// One `"key": value` member starting at `i` (at the opening quote of the
/// key).  Only the four keys of the closed grammar are admitted, each at
/// most once; the `type` value must be one of the three known tags.
pub open spec fn parse_member(s: Seq<char>, i: int, acc: RawFields) -> Option<(RawFields, int)> {
    if matches_at(s, i, "\"type\""@) {
        if acc.ty is Some {
            None
        } else {
            let j = ws_end(s, i + 6);
            if j < s.len() && s[j] == ':' {
                let k = ws_end(s, j + 1);
                if matches_at(s, k, "\"time\""@) {
                    Some((RawFields { ty: Some(Tag::Time), ..acc }, k + 6))
                } else if matches_at(s, k, "\"range_f32\""@) {
                    Some((RawFields { ty: Some(Tag::RangeF32), ..acc }, k + 11))
                } else if matches_at(s, k, "\"range_i32\""@) {
                    Some((RawFields { ty: Some(Tag::RangeI32), ..acc }, k + 11))
                } else {
                    None
                }
            } else {
                None
            }
        }
    } else if matches_at(s, i, "\"min\""@) {
        if acc.min is Some {
            None
        } else {
            match parse_num_field(s, i + 5) {
                Some((tok, e)) => Some((RawFields { min: Some(tok), ..acc }, e)),
                None => None,
            }
        }
    } else if matches_at(s, i, "\"max\""@) {
        if acc.max is Some {
            None
        } else {
            match parse_num_field(s, i + 5) {
                Some((tok, e)) => Some((RawFields { max: Some(tok), ..acc }, e)),
                None => None,
            }
        }
    } else if matches_at(s, i, "\"default\""@) {
        if acc.default is Some {
            None
        } else {
            match parse_num_field(s, i + 9) {
                Some((tok, e)) => Some((RawFields { default: Some(tok), ..acc }, e)),
                None => None,
            }
        }
    } else {
        None
    }
}

/// A member never ends before it starts.
pub proof fn lemma_parse_num_field_bounds(s: Seq<char>, i: int)
    requires
        0 <= i <= s.len(),
    ensures
        match parse_num_field(s, i) {
            Some((tok, e)) => i < e <= s.len() && tok.len() > 0,
            None => true,
        },
{
    lemma_ws_end_bounds(s, i);
    let j = ws_end(s, i);
    if j < s.len() && s[j] == ':' {
        lemma_ws_end_bounds(s, j + 1);
        let k = ws_end(s, j + 1);
        lemma_num_end_bounds(s, k);
    }
}

pub proof fn lemma_parse_member_bounds(s: Seq<char>, i: int, acc: RawFields)
    requires
        0 <= i <= s.len(),
    ensures
        match parse_member(s, i, acc) {
            Some((f, j)) => i < j <= s.len(),
            None => true,
        },
{
    reveal_strlit("\"type\"");
    reveal_strlit("\"min\"");
    reveal_strlit("\"max\"");
    reveal_strlit("\"default\"");
    reveal_strlit("\"time\"");
    reveal_strlit("\"range_f32\"");
    reveal_strlit("\"range_i32\"");
    if matches_at(s, i, "\"type\""@) {
        lemma_ws_end_bounds(s, i + 6);
        let j = ws_end(s, i + 6);
        if j < s.len() && s[j] == ':' {
            lemma_ws_end_bounds(s, j + 1);
        }
    } else if matches_at(s, i, "\"min\""@) {
        lemma_parse_num_field_bounds(s, i + 5);
    } else if matches_at(s, i, "\"max\""@) {
        lemma_parse_num_field_bounds(s, i + 5);
    } else if matches_at(s, i, "\"default\""@) {
        lemma_parse_num_field_bounds(s, i + 9);
    }
}

/// The members of an object from `i` (at the first key) to the closing
/// brace, folded into `acc`.
pub open spec fn parse_members(s: Seq<char>, i: int, acc: RawFields) -> Option<(RawFields, int)>
    decreases s.len() - i when 0 <= i <= s.len() via parse_members_dec
{
    match parse_member(s, i, acc) {
        None => None,
        Some((acc2, j)) => {
            let k = ws_end(s, j);
            if k < s.len() && s[k] == ',' {
                let m = ws_end(s, k + 1);
                parse_members(s, m, acc2)
            } else if k < s.len() && s[k] == '}' {
                Some((acc2, k + 1))
            } else {
                None
            }
        },
    }
}

#[via_fn]
proof fn parse_members_dec(s: Seq<char>, i: int, acc: RawFields) {
    lemma_parse_member_bounds(s, i, acc);
    match parse_member(s, i, acc) {
        None => {},
        Some((acc2, j)) => {
            lemma_ws_end_bounds(s, j);
            let k = ws_end(s, j);
            if k < s.len() && s[k] == ',' {
                lemma_ws_end_bounds(s, k + 1);
            }
        },
    }
}

pub proof fn lemma_parse_members_bounds(s: Seq<char>, i: int, acc: RawFields)
    requires
        0 <= i <= s.len(),
    ensures
        match parse_members(s, i, acc) {
            Some((f, j)) => i < j <= s.len(),
            None => true,
        },
    decreases s.len() - i,
{
    lemma_parse_member_bounds(s, i, acc);
    match parse_member(s, i, acc) {
        None => {},
        Some((acc2, j)) => {
            lemma_ws_end_bounds(s, j);
            let k = ws_end(s, j);
            if k < s.len() && s[k] == ',' {
                lemma_ws_end_bounds(s, k + 1);
                lemma_parse_members_bounds(s, ws_end(s, k + 1), acc2);
            }
        },
    }
}

/// A descriptor from its collected raw fields: the tag decides how the
/// number tokens are read, and no field of another variant may be present.
pub open spec fn build_param(f: RawFields) -> Option<SchemaType> {
    match f.ty {
        None => None,
        Some(Tag::Time) => if f.min is None && f.max is None && f.default is None {
            Some(SchemaType::Time)
        } else {
            None
        },
        Some(Tag::RangeF32) => match (f.min, f.max, f.default) {
            (Some(a), Some(b), Some(c)) => if json_number(a) && json_number(b) && json_number(c) {
                match (f32_of_text(a), f32_of_text(b), f32_of_text(c)) {
                    (Some(x), Some(y), Some(z)) => Some(
                        SchemaType::RangeF32 { min: x, max: y, default: z },
                    ),
                    _ => None,
                }
            } else {
                None
            },
            _ => None,
        },
        Some(Tag::RangeI32) => match (f.min, f.max, f.default) {
            (Some(a), Some(b), Some(c)) => if json_number(a) && json_number(b) && json_number(c) {
                match (parse_i32_token(a), parse_i32_token(b), parse_i32_token(c)) {
                    (Some(x), Some(y), Some(z)) => Some(
                        SchemaType::RangeI32 { min: x, max: y, default: z },
                    ),
                    _ => None,
                }
            } else {
                None
            },
            _ => None,
        },
    }
}

/// One descriptor object starting at `i` (at the opening brace).
pub open spec fn parse_object(s: Seq<char>, i: int) -> Option<(SchemaType, int)> {
    if 0 <= i && i < s.len() && s[i] == '{' {
        let j = ws_end(s, i + 1);
        match parse_members(s, j, empty_fields()) {
            Some((f, k)) => match build_param(f) {
                Some(p) => Some((p, k)),
                None => None,
            },
            None => None,
        }
    } else {
        None
    }
}

pub proof fn lemma_parse_object_bounds(s: Seq<char>, i: int)
    requires
        0 <= i <= s.len(),
    ensures
        match parse_object(s, i) {
            Some((p, j)) => i < j <= s.len(),
            None => true,
        },
{
    if i < s.len() && s[i] == '{' {
        lemma_ws_end_bounds(s, i + 1);
        lemma_parse_members_bounds(s, ws_end(s, i + 1), empty_fields());
    }
}

/// The elements of a non-empty schema array from `i` (at the first opening
/// brace) to the closing bracket, appended to `acc`.
pub open spec fn parse_items(s: Seq<char>, i: int, acc: Seq<SchemaType>) -> Option<
    (Seq<SchemaType>, int),
>
    decreases s.len() - i when 0 <= i <= s.len() via parse_items_dec
{
    match parse_object(s, i) {
        None => None,
        Some((p, j)) => {
            let k = ws_end(s, j);
            if k < s.len() && s[k] == ',' {
                let m = ws_end(s, k + 1);
                parse_items(s, m, acc.push(p))
            } else if k < s.len() && s[k] == ']' {
                Some((acc.push(p), k + 1))
            } else {
                None
            }
        },
    }
}

#[via_fn]
proof fn parse_items_dec(s: Seq<char>, i: int, acc: Seq<SchemaType>) {
    lemma_parse_object_bounds(s, i);
    match parse_object(s, i) {
        None => {},
        Some((p, j)) => {
            lemma_ws_end_bounds(s, j);
            let k = ws_end(s, j);
            if k < s.len() && s[k] == ',' {
                lemma_ws_end_bounds(s, k + 1);
            }
        },
    }
}

/// A whole schema: a JSON array of descriptor objects, with nothing but
/// whitespace around it.
pub open spec fn parse_schema_text(s: Seq<char>) -> Option<Seq<SchemaType>> {
    let i = ws_end(s, 0);
    if i < s.len() && s[i] == '[' {
        let j = ws_end(s, i + 1);
        if j < s.len() && s[j] == ']' {
            if ws_end(s, j + 1) == s.len() {
                Some(Seq::<SchemaType>::empty())
            } else {
                None
            }
        } else {
            match parse_items(s, j, Seq::<SchemaType>::empty()) {
                Some((ps, k)) => if ws_end(s, k) == s.len() {
                    Some(ps)
                } else {
                    None
                },
                None => None,
            }
        }
    } else {
        None
    }
}

/// A single descriptor with nothing but whitespace around it.
pub open spec fn parse_param_text(s: Seq<char>) -> Option<SchemaType> {
    let i = ws_end(s, 0);
    match parse_object(s, i) {
        Some((p, j)) => if ws_end(s, j) == s.len() {
            Some(p)
        } else {
            None
        },
        None => None,
    }
}

// ---------------------------------------------------------------------------
// The executable decoder
// ---------------------------------------------------------------------------

/// Decoding failed: the text is not a schema of the closed grammar.
#[derive(Debug, Clone, Copy, PartialEq, Eq, Structural)]
pub struct SchemaTextError;

/// The raw fields collected so far, as the decoder holds them.
pub struct FieldSlots {
    pub ty: Option<Tag>,
    pub min: Option<Vec<char>>,
    pub max: Option<Vec<char>>,
    pub default: Option<Vec<char>>,
}

impl View for FieldSlots {
    type V = RawFields;

    open spec fn view(&self) -> RawFields {
        RawFields {
            ty: self.ty,
            min: match self.min {
                Some(v) => Some(v@),
                None => None,
            },
            max: match self.max {
                Some(v) => Some(v@),
                None => None,
            },
            default: match self.default {
                Some(v) => Some(v@),
                None => None,
            },
        }
    }
}

/// Copy the characters of `v[a..b]`.
pub fn copy_range(v: &Vec<char>, a: usize, b: usize) -> (r: Vec<char>)
    requires
        a <= b <= v@.len(),
    ensures
        r@ == v@.subrange(a as int, b as int),
{
    let mut out: Vec<char> = Vec::new();
    let mut i: usize = a;
    while i < b
        invariant
            a <= i <= b <= v@.len(),
            out@ == v@.subrange(a as int, i as int),
        decreases b - i,
    {
        out.push(v[i]);
        i = i + 1;
        proof {
            assert(out@ =~= v@.subrange(a as int, i as int));
        }
    }
    out
}

/// Read `": <number token>"` after a key ending at `i`.
fn member_num_value(v: &Vec<char>, i: usize) -> (r: Option<(Vec<char>, usize)>)
    requires
        i <= v@.len(),
    ensures
        match r {
            Some((tok, e)) => parse_num_field(v@, i as int) == Some((tok@, e as int)) && i < e
                <= v@.len(),
            None => parse_num_field(v@, i as int) is None,
        },
{
    let j = skip_ws(v, i);
    if !(j < v.len() && v[j] == ':') {
        return None;
    }
    let k = skip_ws(v, j + 1);
    let e = scan_num(v, k);
    if e > k {
        Some((copy_range(v, k, e), e))
    } else {
        None
    }
}

/// Read one member at `i`, folding it into the slots.
fn parse_member_exec(v: &Vec<char>, i: usize, slots: &mut FieldSlots) -> (r: Option<usize>)
    requires
        i <= v@.len(),
    ensures
        match r {
            Some(j) => parse_member(v@, i as int, old(slots)@) == Some((final(slots)@, j as int))
                && i < j <= v@.len(),
            None => parse_member(v@, i as int, old(slots)@) is None,
        },
{
    // Binds the view's length to a machine word, so the index sums below
    // are known to fit one.
    #[allow(unused_variables)]
    let n = v.len();
    proof {
        lemma_parse_member_bounds(v@, i as int, old(slots)@);
        reveal_strlit("\"type\"");
        reveal_strlit("\"min\"");
        reveal_strlit("\"max\"");
        reveal_strlit("\"default\"");
        reveal_strlit("\"time\"");
        reveal_strlit("\"range_f32\"");
        reveal_strlit("\"range_i32\"");
    }
    if match_lit(v, i, "\"type\"") {
        if slots.ty.is_some() {
            return None;
        }
        let j = skip_ws(v, i + 6);
        if !(j < v.len() && v[j] == ':') {
            return None;
        }
        let k = skip_ws(v, j + 1);
        if match_lit(v, k, "\"time\"") {
            slots.ty = Some(Tag::Time);
            Some(k + 6)
        } else if match_lit(v, k, "\"range_f32\"") {
            slots.ty = Some(Tag::RangeF32);
            Some(k + 11)
        } else if match_lit(v, k, "\"range_i32\"") {
            slots.ty = Some(Tag::RangeI32);
            Some(k + 11)
        } else {
            None
        }
    } else if match_lit(v, i, "\"min\"") {
        if slots.min.is_some() {
            return None;
        }
        match member_num_value(v, i + 5) {
            Some((tok, e)) => {
                slots.min = Some(tok);
                Some(e)
            },
            None => None,
        }
    } else if match_lit(v, i, "\"max\"") {
        if slots.max.is_some() {
            return None;
        }
        match member_num_value(v, i + 5) {
            Some((tok, e)) => {
                slots.max = Some(tok);
                Some(e)
            },
            None => None,
        }
    } else if match_lit(v, i, "\"default\"") {
        if slots.default.is_some() {
            return None;
        }
        match member_num_value(v, i + 9) {
            Some((tok, e)) => {
                slots.default = Some(tok);
                Some(e)
            },
            None => None,
        }
    } else {
        None
    }
}

/// Build the descriptor the collected fields describe, if they are complete
/// and well-typed for their tag.
fn build_param_exec(slots: &FieldSlots) -> (r: Option<SchemaType>)
    ensures
        r == build_param(slots@),
{
    match &slots.ty {
        None => None,
        Some(Tag::Time) => {
            if slots.min.is_none() && slots.max.is_none() && slots.default.is_none() {
                Some(SchemaType::Time)
            } else {
                None
            }
        },
        Some(Tag::RangeF32) => {
            match (&slots.min, &slots.max, &slots.default) {
                (Some(a), Some(b), Some(c)) => {
                    if is_json_number(a) && is_json_number(b) && is_json_number(c) {
                        match (parse_f32_chars(a), parse_f32_chars(b), parse_f32_chars(c)) {
                            (Some(x), Some(y), Some(z)) => Some(
                                SchemaType::RangeF32 { min: x, max: y, default: z },
                            ),
                            _ => None,
                        }
                    } else {
                        None
                    }
                },
                _ => None,
            }
        },
        Some(Tag::RangeI32) => {
            match (&slots.min, &slots.max, &slots.default) {
                (Some(a), Some(b), Some(c)) => {
                    proof {
                        assert(a@.subrange(0, a@.len() as int) =~= a@);
                        assert(b@.subrange(0, b@.len() as int) =~= b@);
                        assert(c@.subrange(0, c@.len() as int) =~= c@);
                    }
                    if is_json_number(a) && is_json_number(b) && is_json_number(c) {
                        match (
                            parse_i32_chars(a, 0, a.len()),
                            parse_i32_chars(b, 0, b.len()),
                            parse_i32_chars(c, 0, c.len()),
                        ) {
                            (Some(x), Some(y), Some(z)) => Some(
                                SchemaType::RangeI32 { min: x, max: y, default: z },
                            ),
                            _ => None,
                        }
                    } else {
                        None
                    }
                },
                _ => None,
            }
        },
    }
}

/// Read one descriptor object at `i`.
#[verifier::loop_isolation(false)]
fn parse_object_exec(v: &Vec<char>, i: usize) -> (r: Option<(SchemaType, usize)>)
    requires
        i <= v@.len(),
    ensures
        match r {
            Some((p, j)) => parse_object(v@, i as int) == Some((p, j as int)) && i < j <= v@.len(),
            None => parse_object(v@, i as int) is None,
        },
{
    if !(i < v.len() && v[i] == '{') {
        return None;
    }
    let start = skip_ws(v, i + 1);
    let mut slots = FieldSlots { ty: None, min: None, max: None, default: None };
    let mut pos: usize = start;
    proof {
        assert(slots@ == empty_fields());
    }
    loop
        invariant
            start <= pos <= v@.len(),
            parse_members(v@, start as int, empty_fields()) == parse_members(
                v@,
                pos as int,
                slots@,
            ),
        decreases v@.len() - pos,
    {
        let ghost before = slots@;
        let next = match parse_member_exec(v, pos, &mut slots) {
            Some(n) => n,
            None => {
                return None;
            },
        };
        let k = skip_ws(v, next);
        if k < v.len() && v[k] == ',' {
            let m = skip_ws(v, k + 1);
            proof {
                assert(parse_members(v@, pos as int, before) == parse_members(
                    v@,
                    m as int,
                    slots@,
                ));
            }
            pos = m;
        } else if k < v.len() && v[k] == '}' {
            match build_param_exec(&slots) {
                Some(p) => {
                    return Some((p, k + 1));
                },
                None => {
                    return None;
                },
            }
        } else {
            return None;
        }
    }
}

/// Decode a whole schema: a JSON array of descriptor objects.
#[verifier::loop_isolation(false)]
pub fn decode_schema_chars(v: &Vec<char>) -> (r: Result<Vec<SchemaType>, SchemaTextError>)
    ensures
        match r {
            Ok(ps) => parse_schema_text(v@) == Some(ps@),
            Err(_) => parse_schema_text(v@) is None,
        },
{
    let i = skip_ws(v, 0);
    if !(i < v.len() && v[i] == '[') {
        return Err(SchemaTextError);
    }
    let j = skip_ws(v, i + 1);
    if j < v.len() && v[j] == ']' {
        let e = skip_ws(v, j + 1);
        if e == v.len() {
            let out: Vec<SchemaType> = Vec::new();
            proof {
                assert(out@ =~= Seq::<SchemaType>::empty());
            }
            return Ok(out);
        } else {
            return Err(SchemaTextError);
        }
    }
    let mut out: Vec<SchemaType> = Vec::new();
    let mut pos: usize = j;
    proof {
        assert(out@ =~= Seq::<SchemaType>::empty());
    }
    loop
        invariant
            j <= pos <= v@.len(),
            parse_items(v@, j as int, Seq::<SchemaType>::empty()) == parse_items(
                v@,
                pos as int,
                out@,
            ),
        decreases v@.len() - pos,
    {
        let (p, next) = match parse_object_exec(v, pos) {
            Some(x) => x,
            None => {
                return Err(SchemaTextError);
            },
        };
        out.push(p);
        let k = skip_ws(v, next);
        if k < v.len() && v[k] == ',' {
            let m = skip_ws(v, k + 1);
            pos = m;
        } else if k < v.len() && v[k] == ']' {
            let e = skip_ws(v, k + 1);
            if e == v.len() {
                return Ok(out);
            } else {
                return Err(SchemaTextError);
            }
        } else {
            return Err(SchemaTextError);
        }
    }
}

// ---------------------------------------------------------------------------
// The encoder
// ---------------------------------------------------------------------------

/// The quoted tag text of each variant.
pub open spec fn taglit(tag: Tag) -> Seq<char> {
    match tag {
        Tag::Time => "\"time\""@,
        Tag::RangeF32 => "\"range_f32\""@,
        Tag::RangeI32 => "\"range_i32\""@,
    }
}

/// The canonical text of a range descriptor with the given tag and number
/// tokens.
pub open spec fn range_json(tag: Tag, t1: Seq<char>, t2: Seq<char>, t3: Seq<char>) -> Seq<char> {
    "{\"type\":"@ + taglit(tag) + ",\"min\":"@ + t1 + ",\"max\":"@ + t2 + ",\"default\":"@ + t3
        + "}"@
}

/// The canonical JSON text of one descriptor.
pub open spec fn param_json(p: SchemaType) -> Seq<char> {
    match p {
        SchemaType::Time => "{\"type\":\"time\"}"@,
        SchemaType::RangeF32 { min, max, default } => range_json(
            Tag::RangeF32,
            f32_text(min),
            f32_text(max),
            f32_text(default),
        ),
        SchemaType::RangeI32 { min, max, default } => range_json(
            Tag::RangeI32,
            i32_text(min as int),
            i32_text(max as int),
            i32_text(default as int),
        ),
    }
}

/// All float fields of the descriptor are finite (trivially true of the
/// variants that have none).
impl SchemaType {
    pub open spec fn text_wf(self) -> bool {
        match self {
            SchemaType::RangeF32 { min, max, default } => f32_is_finite(min) && f32_is_finite(max)
                && f32_is_finite(default),
            _ => true,
        }
    }
}

// ---------------------------------------------------------------------------
// Decoding the canonical text gives the descriptor back
// ---------------------------------------------------------------------------

/// A number character is not whitespace.
proof fn lemma_num_char_not_ws(c: char)
    requires
        is_num_char(c),
    ensures
        !is_ws(c),
{
    assert(' ' as u32 == 32 && '\t' as u32 == 9 && '\n' as u32 == 10 && '\r' as u32 == 13);
    assert('0' as u32 == 48 && '9' as u32 == 57);
    assert('-' as u32 == 45 && '+' as u32 == 43 && '.' as u32 == 46 && 'e' as u32 == 101
        && 'E' as u32 == 69);
}

/// Reading a member whose key is `type`, whose colon follows at once, and
/// whose value is the quoted tag.
proof fn lemma_member_type(s: Seq<char>, i: int, tag: Tag, acc: RawFields)
    requires
        0 <= i,
        matches_at(s, i, "\"type\""@),
        i + 6 < s.len(),
        s[i + 6] == ':',
        matches_at(s, i + 7, taglit(tag)),
        acc.ty is None,
    ensures
        parse_member(s, i, acc) == Some(
            (RawFields { ty: Some(tag), ..acc }, i + 7 + taglit(tag).len()),
        ),
{
    reveal_strlit("\"type\"");
    reveal_strlit("\"time\"");
    reveal_strlit("\"range_f32\"");
    reveal_strlit("\"range_i32\"");
    assert(ws_end(s, i + 6) == i + 6);
    assert(ws_end(s, i + 7) == i + 7) by {
        assert(s[i + 7] == taglit(tag)[0]);
        assert(taglit(tag)[0] == '"');
    }
    match tag {
        Tag::Time => {
            assert(matches_at(s, i + 7, "\"time\""@));
        },
        Tag::RangeF32 => {
            assert(s[i + 7 + 1] == taglit(tag)[1] && taglit(tag)[1] == 'r');
            if i + 7 + 6 <= s.len() {
                assert(s.subrange(i + 7, i + 7 + 6)[1] == s[i + 7 + 1]);
                assert(s.subrange(i + 7, i + 7 + 6) != "\"time\""@);
            }
            assert(!matches_at(s, i + 7, "\"time\""@));
            assert(matches_at(s, i + 7, "\"range_f32\""@));
        },
        Tag::RangeI32 => {
            assert(s[i + 7 + 1] == taglit(tag)[1] && taglit(tag)[1] == 'r');
            if i + 7 + 6 <= s.len() {
                assert(s.subrange(i + 7, i + 7 + 6)[1] == s[i + 7 + 1]);
                assert(s.subrange(i + 7, i + 7 + 6) != "\"time\""@);
            }
            assert(!matches_at(s, i + 7, "\"time\""@));
            assert(s[i + 7 + 7] == taglit(tag)[7] && taglit(tag)[7] == 'i');
            if i + 7 + 11 <= s.len() {
                assert(s.subrange(i + 7, i + 7 + 11)[7] == s[i + 7 + 7]);
                assert(s.subrange(i + 7, i + 7 + 11) != "\"range_f32\""@);
            }
            assert(!matches_at(s, i + 7, "\"range_f32\""@));
            assert(matches_at(s, i + 7, "\"range_i32\""@));
        },
    }
}

/// The shared requirements of a canonical number member: the key, the colon
/// right after it, the token, and a non-number character right after the
/// token.
spec fn num_member_at(s: Seq<char>, i: int, keylen: int, tok: Seq<char>) -> bool {
    &&& 0 <= i
    &&& i + keylen < s.len()
    &&& s[i + keylen] == ':'
    &&& i + keylen + 1 + tok.len() < s.len()
    &&& s.subrange(i + keylen + 1, i + keylen + 1 + tok.len() as int) == tok
    &&& tok.len() > 0
    &&& (forall|k: int| 0 <= k < tok.len() ==> is_num_char(#[trigger] tok[k]))
    &&& !is_num_char(s[i + keylen + 1 + tok.len()])
}

/// Reading the number value after a key: the colon, then the maximal number
/// token.
proof fn lemma_num_field(s: Seq<char>, i: int, tok: Seq<char>)
    requires
        0 <= i,
        i < s.len(),
        s[i] == ':',
        i + 1 + tok.len() < s.len(),
        s.subrange(i + 1, i + 1 + tok.len() as int) == tok,
        tok.len() > 0,
        forall|k: int| 0 <= k < tok.len() ==> is_num_char(#[trigger] tok[k]),
        !is_num_char(s[i + 1 + tok.len()]),
    ensures
        parse_num_field(s, i) == Some((tok, i + 1 + tok.len())),
{
    assert(ws_end(s, i) == i);
    assert(s[i + 1] == tok[0]) by {
        assert(s.subrange(i + 1, i + 1 + tok.len() as int)[0] == s[i + 1]);
    }
    lemma_num_char_not_ws(tok[0]);
    assert(ws_end(s, i + 1) == i + 1);
    assert(forall|k: int|
        i + 1 <= k < i + 1 + tok.len() ==> is_num_char(#[trigger] s[k])) by {
        assert(forall|k: int|
            i + 1 <= k < i + 1 + tok.len() ==> s[k] == s.subrange(
                i + 1,
                i + 1 + tok.len() as int,
            )[k - (i + 1)]);
    }
    lemma_num_end_exact(s, i + 1, i + 1 + tok.len());
}

/// Reading a canonical `"min"` member.
proof fn lemma_member_min(s: Seq<char>, i: int, tok: Seq<char>, acc: RawFields)
    requires
        num_member_at(s, i, 5, tok),
        matches_at(s, i, "\"min\""@),
        acc.min is None,
    ensures
        parse_member(s, i, acc) == Some((RawFields { min: Some(tok), ..acc }, i + 6 + tok.len())),
{
    reveal_strlit("\"type\"");
    reveal_strlit("\"min\"");
    assert(s[i + 1] == 'm') by {
        assert(s.subrange(i, i + 5)[1] == s[i + 1]);
    }
    if i + 6 <= s.len() {
        assert(s.subrange(i, i + 6)[1] == s[i + 1]);
        assert(s.subrange(i, i + 6) != "\"type\""@);
    }
    assert(!matches_at(s, i, "\"type\""@));
    lemma_num_field(s, i + 5, tok);
}

/// Reading a canonical `"max"` member.
proof fn lemma_member_max(s: Seq<char>, i: int, tok: Seq<char>, acc: RawFields)
    requires
        num_member_at(s, i, 5, tok),
        matches_at(s, i, "\"max\""@),
        acc.max is None,
    ensures
        parse_member(s, i, acc) == Some((RawFields { max: Some(tok), ..acc }, i + 6 + tok.len())),
{
    reveal_strlit("\"type\"");
    reveal_strlit("\"min\"");
    reveal_strlit("\"max\"");
    assert(s[i + 1] == 'm' && s[i + 2] == 'a') by {
        assert(s.subrange(i, i + 5)[1] == s[i + 1]);
        assert(s.subrange(i, i + 5)[2] == s[i + 2]);
    }
    if i + 6 <= s.len() {
        assert(s.subrange(i, i + 6)[1] == s[i + 1]);
        assert(s.subrange(i, i + 6) != "\"type\""@);
    }
    assert(!matches_at(s, i, "\"type\""@));
    assert(s.subrange(i, i + 5)[2] == s[i + 2]);
    assert(s.subrange(i, i + 5) != "\"min\""@);
    assert(!matches_at(s, i, "\"min\""@));
    lemma_num_field(s, i + 5, tok);
}

/// Reading a canonical `"default"` member.
proof fn lemma_member_default(s: Seq<char>, i: int, tok: Seq<char>, acc: RawFields)
    requires
        num_member_at(s, i, 9, tok),
        matches_at(s, i, "\"default\""@),
        acc.default is None,
    ensures
        parse_member(s, i, acc) == Some(
            (RawFields { default: Some(tok), ..acc }, i + 10 + tok.len()),
        ),
{
    reveal_strlit("\"type\"");
    reveal_strlit("\"min\"");
    reveal_strlit("\"max\"");
    reveal_strlit("\"default\"");
    assert(s[i + 1] == 'd') by {
        assert(s.subrange(i, i + 9)[1] == s[i + 1]);
    }
    if i + 6 <= s.len() {
        assert(s.subrange(i, i + 6)[1] == s[i + 1]);
        assert(s.subrange(i, i + 6) != "\"type\""@);
    }
    assert(!matches_at(s, i, "\"type\""@));
    if i + 5 <= s.len() {
        assert(s.subrange(i, i + 5)[1] == s[i + 1]);
        assert(s.subrange(i, i + 5) != "\"min\""@);
        assert(s.subrange(i, i + 5) != "\"max\""@);
    }
    assert(!matches_at(s, i, "\"min\""@));
    assert(!matches_at(s, i, "\"max\""@));
    lemma_num_field(s, i + 9, tok);
}

/// Decoding the canonical text of the time descriptor gives it back.
pub proof fn lemma_time_round_trip()
    ensures
        parse_param_text("{\"type\":\"time\"}"@) == Some(SchemaType::Time),
{
    reveal_strlit("{\"type\":\"time\"}");
    reveal_strlit("\"type\"");
    reveal_strlit("\"time\"");
    let s = "{\"type\":\"time\"}"@;
    assert(s.len() == 15);
    assert(s.subrange(1, 7) =~= "\"type\""@);
    assert(s.subrange(8, 14) =~= "\"time\""@);
    assert(s[7] == ':');
    lemma_member_type(s, 1, Tag::Time, empty_fields());
    let f = RawFields { ty: Some(Tag::Time), min: None, max: None, default: None };
    assert(parse_member(s, 1, empty_fields()) == Some((f, 14int)));
    assert(s[14] == '}');
    assert(ws_end(s, 14) == 14);
    assert(parse_members(s, 1, empty_fields()) == Some((f, 15int)));
    assert(build_param(f) == Some(SchemaType::Time));
    assert(s[0] == '{');
    assert(ws_end(s, 1) == 1);
    assert(parse_object(s, 0) == Some((SchemaType::Time, 15int)));
    assert(ws_end(s, 0) == 0);
    assert(ws_end(s, 15) == 15);
}

/// A number token: non-empty, number characters throughout.
pub open spec fn num_token(t: Seq<char>) -> bool {
    t.len() > 0 && forall|k: int| 0 <= k < t.len() ==> is_num_char(#[trigger] t[k])
}

/// Decoding the canonical text of a range descriptor collects exactly its
/// tag and its three number tokens; what the tokens mean is then the
/// business of `build_param`.
#[verifier::rlimit(100)]
pub proof fn lemma_range_round_trip(tag: Tag, t1: Seq<char>, t2: Seq<char>, t3: Seq<char>)
    requires
        tag == Tag::RangeF32 || tag == Tag::RangeI32,
        num_token(t1),
        num_token(t2),
        num_token(t3),
    ensures
        ({
            let s = range_json(tag, t1, t2, t3);
            let f = RawFields {
                ty: Some(tag),
                min: Some(t1),
                max: Some(t2),
                default: Some(t3),
            };
            parse_param_text(s) == match build_param(f) {
                Some(p) => Some(p),
                None => None::<SchemaType>,
            }
        }),
{
    reveal_strlit("{\"type\":");
    reveal_strlit(",\"min\":");
    reveal_strlit(",\"max\":");
    reveal_strlit(",\"default\":");
    reveal_strlit("}");
    reveal_strlit("\"type\"");
    reveal_strlit("\"min\"");
    reveal_strlit("\"max\"");
    reveal_strlit("\"default\"");
    reveal_strlit("\"time\"");
    reveal_strlit("\"range_f32\"");
    reveal_strlit("\"range_i32\"");
    let s = range_json(tag, t1, t2, t3);
    let tg = taglit(tag);
    let n1 = t1.len() as int;
    let n2 = t2.len() as int;
    let n3 = t3.len() as int;
    let e1 = 26 + n1;
    let e2 = e1 + 7 + n2;
    let e3 = e2 + 11 + n3;
    assert(tg.len() == 11);
    assert(s.len() == e3 + 1);
    assert(forall|k: int| 0 <= k < 8 ==> s[k] == "{\"type\":"@[k]);
    assert(forall|k: int| 0 <= k < 11 ==> s[8 + k] == tg[k]);
    assert(forall|k: int| 0 <= k < 7 ==> s[19 + k] == ",\"min\":"@[k]);
    assert(forall|k: int| 0 <= k < n1 ==> s[26 + k] == t1[k]);
    assert(forall|k: int| 0 <= k < 7 ==> s[e1 + k] == ",\"max\":"@[k]);
    assert(forall|k: int| 0 <= k < n2 ==> s[e1 + 7 + k] == t2[k]);
    assert(forall|k: int| 0 <= k < 11 ==> s[e2 + k] == ",\"default\":"@[k]);
    assert(forall|k: int| 0 <= k < n3 ==> s[e2 + 11 + k] == t3[k]);
    assert(s[e3] == '}');

    // The `type` member at 1.
    assert(s.subrange(1, 7) =~= "\"type\""@);
    assert(s[7] == ':');
    assert(s.subrange(8, 19) =~= tg);
    let f0 = empty_fields();
    lemma_member_type(s, 1, tag, f0);
    let f1 = RawFields { ty: Some(tag), min: None, max: None, default: None };
    assert(parse_member(s, 1, f0) == Some((f1, 19int)));

    // The `min` member at 20.
    assert(s[19] == ',');
    assert(ws_end(s, 19) == 19);
    assert(s[20] == '"');
    assert(ws_end(s, 20) == 20);
    assert(s.subrange(20, 25) =~= "\"min\""@);
    assert(s[25] == ':');
    assert(s.subrange(26, 26 + n1) =~= t1);
    assert(s[26 + n1] == ',');
    assert(!is_num_char(',')) by {
        assert(',' as u32 == 44 && '0' as u32 == 48 && '9' as u32 == 57);
    }
    lemma_member_min(s, 20, t1, f1);
    let f2 = RawFields { ty: Some(tag), min: Some(t1), max: None, default: None };
    assert(parse_member(s, 20, f1) == Some((f2, e1)));

    // The `max` member at e1 + 1.
    assert(s[e1] == ',');
    assert(ws_end(s, e1) == e1);
    assert(s[e1 + 1] == '"');
    assert(ws_end(s, e1 + 1) == e1 + 1);
    assert(s.subrange(e1 + 1, e1 + 6) =~= "\"max\""@);
    assert(s[e1 + 6] == ':');
    assert(s.subrange(e1 + 7, e1 + 7 + n2) =~= t2);
    assert(s[e1 + 7 + n2] == ',');
    lemma_member_max(s, e1 + 1, t2, f2);
    let f3 = RawFields { ty: Some(tag), min: Some(t1), max: Some(t2), default: None };
    assert(parse_member(s, e1 + 1, f2) == Some((f3, e2)));

    // The `default` member at e2 + 1.
    assert(s[e2] == ',');
    assert(ws_end(s, e2) == e2);
    assert(s[e2 + 1] == '"');
    assert(ws_end(s, e2 + 1) == e2 + 1);
    assert(s.subrange(e2 + 1, e2 + 10) =~= "\"default\""@);
    assert(s[e2 + 10] == ':');
    assert(s.subrange(e2 + 11, e2 + 11 + n3) =~= t3);
    assert(s[e2 + 11 + n3] == '}');
    assert(!is_num_char('}')) by {
        assert('}' as u32 == 125 && '0' as u32 == 48 && '9' as u32 == 57);
    }
    lemma_member_default(s, e2 + 1, t3, f3);
    let f4 = RawFields { ty: Some(tag), min: Some(t1), max: Some(t2), default: Some(t3) };
    assert(parse_member(s, e2 + 1, f3) == Some((f4, e3)));

    // Fold the members, innermost first.
    assert(ws_end(s, e3) == e3);
    assert(parse_members(s, e2 + 1, f3) == Some((f4, e3 + 1)));
    assert(parse_members(s, e1 + 1, f2) == Some((f4, e3 + 1)));
    assert(parse_members(s, 20, f1) == Some((f4, e3 + 1)));
    assert(parse_members(s, 1, f0) == Some((f4, e3 + 1)));

    // The object and the whole text.
    assert(s[0] == '{');
    assert(s[1] == '"');
    assert(ws_end(s, 1) == 1);
    assert(ws_end(s, 0) == 0);
    assert(ws_end(s, e3 + 1) == e3 + 1);
}

/// Relies on `String`'s `FromIterator<char>`: collects exactly the given
/// characters into a string.
#[verifier::external_body]
fn chars_to_string(v: &Vec<char>) -> (r: String)
    ensures
        r@ == v@,
{
    v.iter().collect()
}

/// Append every character of `lit` to `out`.
fn push_str_chars(out: &mut Vec<char>, lit: &str)
    ensures
        final(out)@ == old(out)@ + lit@,
{
    let n = lit.unicode_len();
    let mut i: usize = 0;
    while i < n
        invariant
            i <= n,
            n == lit@.len(),
            out@ == old(out)@ + lit@.subrange(0, i as int),
        decreases n - i,
    {
        out.push(lit.get_char(i));
        i = i + 1;
        proof {
            assert(out@ =~= old(out)@ + lit@.subrange(0, i as int));
        }
    }
    proof {
        assert(old(out)@ + lit@.subrange(0, n as int) =~= old(out)@ + lit@);
    }
}

/// Append a ready-made token to `out`.
fn push_chars(out: &mut Vec<char>, tok: &Vec<char>)
    ensures
        final(out)@ == old(out)@ + tok@,
{
    let mut i: usize = 0;
    while i < tok.len()
        invariant
            i <= tok@.len(),
            out@ == old(out)@ + tok@.subrange(0, i as int),
        decreases tok@.len() - i,
    {
        out.push(tok[i]);
        i = i + 1;
        proof {
            assert(out@ =~= old(out)@ + tok@.subrange(0, i as int));
        }
    }
    proof {
        assert(old(out)@ + tok@.subrange(0, tok@.len() as int) =~= old(out)@ + tok@);
    }
}

impl SchemaType {
    /// Encode this descriptor as its canonical JSON text.
    ///
    /// Decoding the result gives the descriptor back, provided its float
    /// fields are finite (a non-finite float has no JSON number text).
    pub fn to_json(&self) -> (r: String)
        ensures
            r@ == param_json(*self),
            self.text_wf() ==> parse_param_text(r@) == Some(*self),
    {
        match self {
            SchemaType::Time => {
                proof {
                    lemma_time_round_trip();
                }
                "{\"type\":\"time\"}".to_owned()
            },
            SchemaType::RangeF32 { min, max, default } => {
                let mut out: Vec<char> = Vec::new();
                push_str_chars(&mut out, "{\"type\":");
                push_str_chars(&mut out, "\"range_f32\"");
                push_str_chars(&mut out, ",\"min\":");
                let t1 = crate::text::chars_vec(format_f32(*min).as_str());
                push_chars(&mut out, &t1);
                push_str_chars(&mut out, ",\"max\":");
                let t2 = crate::text::chars_vec(format_f32(*max).as_str());
                push_chars(&mut out, &t2);
                push_str_chars(&mut out, ",\"default\":");
                let t3 = crate::text::chars_vec(format_f32(*default).as_str());
                push_chars(&mut out, &t3);
                push_str_chars(&mut out, "}");
                proof {
                    assert(out@ =~= param_json(*self));
                    if self.text_wf() {
                        assert(num_token(t1@) && num_token(t2@) && num_token(t3@));
                        lemma_range_round_trip(Tag::RangeF32, t1@, t2@, t3@);
                        let f = RawFields {
                            ty: Some(Tag::RangeF32),
                            min: Some(t1@),
                            max: Some(t2@),
                            default: Some(t3@),
                        };
                        assert(build_param(f) == Some(*self));
                    }
                }
                chars_to_string(&out)
            },
            SchemaType::RangeI32 { min, max, default } => {
                let mut out: Vec<char> = Vec::new();
                push_str_chars(&mut out, "{\"type\":");
                push_str_chars(&mut out, "\"range_i32\"");
                push_str_chars(&mut out, ",\"min\":");
                push_i32_text(&mut out, *min);
                push_str_chars(&mut out, ",\"max\":");
                push_i32_text(&mut out, *max);
                push_str_chars(&mut out, ",\"default\":");
                push_i32_text(&mut out, *default);
                push_str_chars(&mut out, "}");
                proof {
                    assert(out@ =~= param_json(*self));
                    lemma_i32_text_parse(*min as int);
                    lemma_i32_text_parse(*max as int);
                    lemma_i32_text_parse(*default as int);
                    lemma_i32_text_json(*min as int);
                    lemma_i32_text_json(*max as int);
                    lemma_i32_text_json(*default as int);
                    lemma_range_round_trip(
                        Tag::RangeI32,
                        i32_text(*min as int),
                        i32_text(*max as int),
                        i32_text(*default as int),
                    );
                    let f = RawFields {
                        ty: Some(Tag::RangeI32),
                        min: Some(i32_text(*min as int)),
                        max: Some(i32_text(*max as int)),
                        default: Some(i32_text(*default as int)),
                    };
                    assert(build_param(f) == Some(*self));
                }
                chars_to_string(&out)
            },
        }
    }
}

impl SchemaType {
    /// Decode one descriptor from its JSON text.
    pub fn from_json(text: &str) -> (r: Result<SchemaType, SchemaTextError>)
        ensures
            match r {
                Ok(p) => parse_param_text(text@) == Some(p),
                Err(_) => parse_param_text(text@) is None,
            },
    {
        let v = crate::text::chars_vec(text);
        let i = skip_ws(&v, 0);
        match parse_object_exec(&v, i) {
            Some((p, j)) => {
                let e = skip_ws(&v, j);
                if e == v.len() {
                    Ok(p)
                } else {
                    Err(SchemaTextError)
                }
            },
            None => Err(SchemaTextError),
        }
    }
}

} // verus!
