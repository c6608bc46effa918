//! Verified text helpers: string equality, whitespace trimming, quote
//! stripping, decimal parsing and rendering of 64-bit integers, and the
//! textual rendering of runtime values.

use vstd::prelude::*;
use crate::ast::{Value, ValueM};

verus! {

/// Character-wise equality of two string slices.
pub fn str_eq(a: &str, b: &str) -> (r: bool)
    ensures
        r == (a@ == b@),
{
    let sa: String = a.to_owned();
    let sb: String = b.to_owned();
    sa == sb
}

// ------------------------------------------------------------------
// Whitespace trimming.
// ------------------------------------------------------------------

/// The Unicode white-space characters, by scalar value.
pub open spec fn is_ws_char(c: char) -> bool {
    let u = c as u32;
    u == 0x20 || (0x09 <= u && u <= 0x0D) || u == 0x85 || u == 0xA0 || u == 0x1680 || (0x2000
        <= u && u <= 0x200A) || u == 0x2028 || u == 0x2029 || u == 0x202F || u == 0x205F || u
        == 0x3000
}

pub fn is_whitespace_char(c: char) -> (r: bool)
    ensures
        r == is_ws_char(c),
{
    let u = c as u32;
    u == 0x20 || (0x09 <= u && u <= 0x0D) || u == 0x85 || u == 0xA0 || u == 0x1680 || (0x2000
        <= u && u <= 0x200A) || u == 0x2028 || u == 0x2029 || u == 0x202F || u == 0x205F || u
        == 0x3000
}

pub open spec fn trim_front_m(s: Seq<char>) -> Seq<char>
    decreases s.len(),
{
    if s.len() > 0 && is_ws_char(s[0]) {
        trim_front_m(s.drop_first())
    } else {
        s
    }
}

pub open spec fn trim_back_m(s: Seq<char>) -> Seq<char>
    decreases s.len(),
{
    if s.len() > 0 && is_ws_char(s.last()) {
        trim_back_m(s.drop_last())
    } else {
        s
    }
}

/// A line of text with leading and trailing whitespace removed.
pub open spec fn trim_m(s: Seq<char>) -> Seq<char> {
    trim_back_m(trim_front_m(s))
}

fn trim_front(s: &str) -> (r: String)
    ensures
        r@ == trim_front_m(s@),
    decreases s@.len(),
{
    let n = s.unicode_len();
    if n > 0 && is_whitespace_char(s.get_char(0)) {
        trim_front(s.substring_char(1, n))
    } else {
        s.to_owned()
    }
}

fn trim_back(s: &str) -> (r: String)
    ensures
        r@ == trim_back_m(s@),
    decreases s@.len(),
{
    let n = s.unicode_len();
    if n > 0 && is_whitespace_char(s.get_char(n - 1)) {
        trim_back(s.substring_char(0, n - 1))
    } else {
        s.to_owned()
    }
}

/// Removes leading and trailing whitespace.
pub fn trim(s: &str) -> (r: String)
    ensures
        r@ == trim_m(s@),
{
    let front = trim_front(s);
    trim_back(front.as_str())
}

// ------------------------------------------------------------------
// Quote stripping for text literals.
// ------------------------------------------------------------------

pub open spec fn strip_quotes_front_m(s: Seq<char>) -> Seq<char>
    decreases s.len(),
{
    if s.len() > 0 && s[0] == '"' {
        strip_quotes_front_m(s.drop_first())
    } else {
        s
    }
}

pub open spec fn strip_quotes_back_m(s: Seq<char>) -> Seq<char>
    decreases s.len(),
{
    if s.len() > 0 && s.last() == '"' {
        strip_quotes_back_m(s.drop_last())
    } else {
        s
    }
}

/// A text-literal token with all leading and trailing double quotes removed.
pub open spec fn strip_quotes_m(s: Seq<char>) -> Seq<char> {
    strip_quotes_back_m(strip_quotes_front_m(s))
}

fn strip_quotes_front(s: &str) -> (r: String)
    ensures
        r@ == strip_quotes_front_m(s@),
    decreases s@.len(),
{
    let n = s.unicode_len();
    if n > 0 && s.get_char(0) == '"' {
        strip_quotes_front(s.substring_char(1, n))
    } else {
        s.to_owned()
    }
}

fn strip_quotes_back(s: &str) -> (r: String)
    ensures
        r@ == strip_quotes_back_m(s@),
    decreases s@.len(),
{
    let n = s.unicode_len();
    if n > 0 && s.get_char(n - 1) == '"' {
        strip_quotes_back(s.substring_char(0, n - 1))
    } else {
        s.to_owned()
    }
}

/// Removes the quoting delimiters of a text literal.
pub fn strip_quotes(s: &str) -> (r: String)
    ensures
        r@ == strip_quotes_m(s@),
{
    let front = strip_quotes_front(s);
    strip_quotes_back(front.as_str())
}

// ------------------------------------------------------------------
// Decimal rendering of 64-bit integers.
// ------------------------------------------------------------------

pub open spec fn digit_char(d: int) -> char {
    if d == 0 {
        '0'
    } else if d == 1 {
        '1'
    } else if d == 2 {
        '2'
    } else if d == 3 {
        '3'
    } else if d == 4 {
        '4'
    } else if d == 5 {
        '5'
    } else if d == 6 {
        '6'
    } else if d == 7 {
        '7'
    } else if d == 8 {
        '8'
    } else if d == 9 {
        '9'
    } else {
        ' '
    }
}

/// The decimal digits of a natural number, most significant first.
pub open spec fn nat_str(n: nat) -> Seq<char>
    decreases n,
{
    if n < 10 {
        seq![digit_char(n as int)]
    } else {
        nat_str(n / 10) + seq![digit_char((n % 10) as int)]
    }
}

/// The decimal rendering of an integer, with a leading minus sign when
/// negative.
pub open spec fn int_str(i: int) -> Seq<char> {
    if i < 0 {
        seq!['-'] + nat_str((-i) as nat)
    } else {
        nat_str(i as nat)
    }
}

fn digit_to_str(d: u64) -> (r: &'static str)
    requires
        d < 10,
    ensures
        r@ == seq![digit_char(d as int)],
{
    if d == 0 {
        proof {
            reveal_strlit("0");
        }
        let r = "0";
        proof {
            assert(r@ =~= seq![digit_char(d as int)]);
        }
        r
    } else if d == 1 {
        proof {
            reveal_strlit("1");
        }
        let r = "1";
        proof {
            assert(r@ =~= seq![digit_char(d as int)]);
        }
        r
    } else if d == 2 {
        proof {
            reveal_strlit("2");
        }
        let r = "2";
        proof {
            assert(r@ =~= seq![digit_char(d as int)]);
        }
        r
    } else if d == 3 {
        proof {
            reveal_strlit("3");
        }
        let r = "3";
        proof {
            assert(r@ =~= seq![digit_char(d as int)]);
        }
        r
    } else if d == 4 {
        proof {
            reveal_strlit("4");
        }
        let r = "4";
        proof {
            assert(r@ =~= seq![digit_char(d as int)]);
        }
        r
    } else if d == 5 {
        proof {
            reveal_strlit("5");
        }
        let r = "5";
        proof {
            assert(r@ =~= seq![digit_char(d as int)]);
        }
        r
    } else if d == 6 {
        proof {
            reveal_strlit("6");
        }
        let r = "6";
        proof {
            assert(r@ =~= seq![digit_char(d as int)]);
        }
        r
    } else if d == 7 {
        proof {
            reveal_strlit("7");
        }
        let r = "7";
        proof {
            assert(r@ =~= seq![digit_char(d as int)]);
        }
        r
    } else if d == 8 {
        proof {
            reveal_strlit("8");
        }
        let r = "8";
        proof {
            assert(r@ =~= seq![digit_char(d as int)]);
        }
        r
    } else {
        proof {
            reveal_strlit("9");
        }
        let r = "9";
        proof {
            assert(r@ =~= seq![digit_char(d as int)]);
        }
        r
    }
}

fn u64_to_string(n: u64) -> (r: String)
    ensures
        r@ == nat_str(n as nat),
    decreases n,
{
    if n < 10 {
        digit_to_str(n).to_owned()
    } else {
        let mut s = u64_to_string(n / 10);
        s.append(digit_to_str(n % 10));
        s
    }
}

/// Renders a 64-bit integer in decimal.
pub fn i64_to_string(i: i64) -> (r: String)
    ensures
        r@ == int_str(i as int),
{
    if i >= 0 {
        u64_to_string(i as u64)
    } else {
        let mag: u64 = (-(i as i128)) as u64;
        proof {
            assert(mag == -(i as int));
        }
        let mut s = "-".to_owned();
        proof {
            reveal_strlit("-");
            assert(s@ =~= seq!['-']);
        }
        s.append(u64_to_string(mag).as_str());
        s
    }
}

// ------------------------------------------------------------------
// Decimal parsing of 64-bit integers.
// ------------------------------------------------------------------

pub open spec fn is_digit_char(c: char) -> bool {
    0x30 <= c as u32 && c as u32 <= 0x39
}

pub open spec fn digit_val(c: char) -> int {
    c as u32 - 0x30
}

pub open spec fn all_digits(s: Seq<char>) -> bool {
    forall|i: int| 0 <= i < s.len() ==> is_digit_char(s[i])
}

/// The value of a sequence of decimal digits.
pub open spec fn digits_val(s: Seq<char>) -> int
    decreases s.len(),
{
    if s.len() == 0 {
        0
    } else {
        digits_val(s.drop_last()) * 10 + digit_val(s.last())
    }
}

/// What the platform's standard parser accepts as a 64-bit integer token:
/// an optional sign, then one or more decimal digits, the value in range.
pub open spec fn parse_i64_m(s: Seq<char>) -> Option<i64> {
    let neg = s.len() > 0 && s[0] == '-';
    let body = if s.len() > 0 && (s[0] == '-' || s[0] == '+') {
        s.drop_first()
    } else {
        s
    };
    if body.len() == 0 || !all_digits(body) {
        None
    } else {
        let v = if neg {
            -digits_val(body)
        } else {
            digits_val(body)
        };
        if i64::MIN <= v && v <= i64::MAX {
            Some(v as i64)
        } else {
            None
        }
    }
}

proof fn lemma_digits_val_nonneg(s: Seq<char>)
    requires
        all_digits(s),
    ensures
        0 <= digits_val(s),
    decreases s.len(),
{
    if s.len() > 0 {
        assert(all_digits(s.drop_last())) by {
            assert(forall|i: int|
                0 <= i < s.drop_last().len() ==> s.drop_last()[i] == s[i] && is_digit_char(
                    s[i],
                ));
        }
        lemma_digits_val_nonneg(s.drop_last());
    }
}

proof fn lemma_digits_val_step(s: Seq<char>, i: int)
    requires
        0 <= i < s.len(),
    ensures
        digits_val(s.take(i + 1)) == digits_val(s.take(i)) * 10 + digit_val(s[i]),
{
    assert(s.take(i + 1).drop_last() =~= s.take(i));
    assert(s.take(i + 1).last() == s[i]);
}

proof fn lemma_digits_val_mono(s: Seq<char>, i: int)
    requires
        all_digits(s),
        0 <= i <= s.len(),
    ensures
        digits_val(s.take(i)) <= digits_val(s),
    decreases s.len() - i,
{
    if i < s.len() {
        lemma_digits_val_step(s, i);
        assert(all_digits(s.take(i))) by {
            assert(forall|j: int| 0 <= j < i ==> s.take(i)[j] == s[j] && is_digit_char(s[j]));
        }
        lemma_digits_val_nonneg(s.take(i));
        assert(digits_val(s.take(i)) <= digits_val(s.take(i + 1)));
        lemma_digits_val_mono(s, i + 1);
        assert(s.take(s.len() as int) =~= s);
    } else {
        assert(s.take(i) =~= s);
    }
}

fn is_digit(c: char) -> (r: bool)
    ensures
        r == is_digit_char(c),
{
    let u = c as u32;
    0x30 <= u && u <= 0x39
}

/// Parses a 64-bit integer token, as the platform's standard parser would.
pub fn parse_i64(s: &str) -> (r: Option<i64>)
    ensures
        r == parse_i64_m(s@),
{
    let n = s.unicode_len();
    let mut start: usize = 0;
    let mut neg = false;
    if n > 0 {
        let c0 = s.get_char(0);
        if c0 == '-' {
            neg = true;
            start = 1;
        } else if c0 == '+' {
            start = 1;
        }
    }
    let ghost body: Seq<char> = if start == 1 {
        s@.drop_first()
    } else {
        s@
    };
    proof {
        assert(body =~= s@.subrange(start as int, n as int));
    }
    if start >= n {
        return None;
    }
    let limit: u64 = if neg {
        9223372036854775808
    } else {
        9223372036854775807
    };
    let mut acc: u64 = 0;
    let mut i: usize = start;
    while i < n
        invariant
            start <= i <= n,
            n == s@.len(),
            start < n,
            body == s@.subrange(start as int, n as int),
            neg == (s@.len() > 0 && s@[0] == '-'),
            body == (if s@.len() > 0 && (s@[0] == '-' || s@[0] == '+') {
                s@.drop_first()
            } else {
                s@
            }),
            neg ==> limit == 9223372036854775808,
            !neg ==> limit == 9223372036854775807,
            acc <= limit,
            all_digits(body.take(i - start)),
            acc == digits_val(body.take(i - start)),
        decreases n - i,
    {
        let c = s.get_char(i);
        proof {
            assert(body[i - start] == s@[i as int]);
        }
        if !is_digit(c) {
            proof {
                assert(!all_digits(body));
            }
            return None;
        }
        let d: u64 = (c as u32 / 1) as u64 - 0x30;
        proof {
            assert(d == digit_val(c));
            assert(d < 10);
        }
        proof {
            lemma_digits_val_step(body, i - start);
        }
        if acc > (limit - d) / 10 {
            // The value of the digits read so far already exceeds the range;
            // more digits can only increase it.
            proof {
                if all_digits(body) {
                    assert(acc * 10 + d > limit) by (nonlinear_arith)
                        requires
                            acc > (limit - d) / 10,
                            d < 10,
                            limit == (limit - d) / 10 * 10 + ((limit - d) % 10) + d,
                            (limit - d) % 10 < 10,
                    ;
                    lemma_digits_val_mono(body, i - start + 1);
                    assert(digits_val(body) >= acc * 10 + d);
                }
            }
            return None;
        }
        proof {
            assert(acc * 10 + d <= limit) by (nonlinear_arith)
                requires
                    acc <= (limit - d) / 10,
                    d <= limit,
                    limit == (limit - d) / 10 * 10 + ((limit - d) % 10) + d,
                    0 <= (limit - d) % 10 < 10,
            ;
        }
        acc = acc * 10 + d;
        i = i + 1;
    }
    proof {
        assert(body.take(n - start) =~= body);
    }
    if neg {
        let v: i64 = (-(acc as i128)) as i64;
        proof {
            assert(v as int == -(acc as int));
        }
        Some(v)
    } else {
        Some(acc as i64)
    }
}

// ------------------------------------------------------------------
// Rendering of runtime values.
// ------------------------------------------------------------------

/// Relies on `String::push`: appends exactly the given character to the
/// (here empty) string.
#[verifier::external_body]
fn char_to_string(c: char) -> (r: String)
    ensures
        r@ == seq![c],
{
    let mut s = String::new();
    s.push(c);
    s
}

/// The textual rendering of a runtime value: text as itself, integers in
/// decimal, booleans as the two fixed tokens, characters as themselves,
/// and the void marker as its fixed name.
pub open spec fn render_m(v: ValueM) -> Seq<char> {
    match v {
        ValueM::Str(s) => s,
        ValueM::Int(i) => int_str(i as int),
        ValueM::Bool(b) => if b {
            "aye"@
        } else {
            "nay"@
        },
        ValueM::Ch(c) => seq![c],
        ValueM::Void => "void"@,
    }
}

/// Renders a runtime value as text.
pub fn render(v: &Value) -> (r: String)
    ensures
        r@ == render_m(v@),
{
    match v {
        Value::String(s) => s.clone(),
        Value::Integer(i) => i64_to_string(*i),
        Value::Boolean(b) => if *b {
            "aye".to_owned()
        } else {
            "nay".to_owned()
        },
        Value::Char(c) => char_to_string(*c),
        Value::Void => "void".to_owned(),
    }
}

} // verus!
