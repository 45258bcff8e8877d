//! A shallow decoder for the JSON envelopes the protocol exchanges.
//!
//! Every response body the client must understand at the protocol level is
//! a JSON object whose interesting fields are scalars: the login response,
//! the redirect envelope of the first fetch hop, and the asset catalogues
//! (objects of flat objects). The decoder reads exactly that much: it
//! decodes scalar fields (strings with the named escapes and `\u00XX`
//! control escapes, integers of up to eighteen digits, booleans, null) and
//! carries any nested or non-integer value opaquely as
//! [`ShallowValue::Composite`], skipping it by balanced brackets. Anything
//! that does not parse is rejected whole, so malformed bodies fail closed.

use vstd::prelude::*;
use vstd::string::*;

verus! {

/// Spec-level form of a decoded field value.
pub ghost enum SpecValue {
    Null,
    Bool(bool),
    Int(int),
    Str(Seq<char>),
    Composite,
}

/// A decoded field value: a scalar, or an opaque marker for a nested or
/// non-integer value whose contents the protocol never reads.
#[derive(Debug, Clone, PartialEq)]
pub enum ShallowValue {
    Null,
    Bool(bool),
    Int(i64),
    Str(String),
    Composite,
}

impl View for ShallowValue {
    type V = SpecValue;

    open spec fn view(&self) -> SpecValue {
        match self {
            ShallowValue::Null => SpecValue::Null,
            ShallowValue::Bool(b) => SpecValue::Bool(*b),
            ShallowValue::Int(v) => SpecValue::Int(*v as int),
            ShallowValue::Str(s) => SpecValue::Str(s@),
            ShallowValue::Composite => SpecValue::Composite,
        }
    }
}

/// The spec-level form of a decoded object: its fields in body order.
pub open spec fn view_fields(v: Seq<(String, ShallowValue)>) -> Seq<(Seq<char>, SpecValue)> {
    v.map_values(|p: (String, ShallowValue)| (p.0@, p.1@))
}

/// The first binding of `name`, fields being searched in body order.
pub open spec fn lookup_field(fields: Seq<(Seq<char>, SpecValue)>, name: Seq<char>) -> Option<
    SpecValue,
>
    decreases fields.len(),
{
    if fields.len() == 0 {
        None
    } else if fields[0].0 == name {
        Some(fields[0].1)
    } else {
        lookup_field(fields.drop_first(), name)
    }
}

/// The looked-up value, with a missing field standing as null; the shape
/// predicates that guard its use never accept a missing field.
pub open spec fn lookup_or_null(fields: Seq<(Seq<char>, SpecValue)>, name: Seq<char>) -> SpecValue {
    match lookup_field(fields, name) {
        Some(v) => v,
        None => SpecValue::Null,
    }
}

/// The integer a value carries, defaulting to zero off the `Int` variant.
pub open spec fn int_of(v: SpecValue) -> int {
    match v {
        SpecValue::Int(n) => n,
        _ => 0,
    }
}

/// The text a value carries, defaulting to empty off the `Str` variant.
pub open spec fn str_of(v: SpecValue) -> Seq<char> {
    match v {
        SpecValue::Str(s) => s,
        _ => Seq::empty(),
    }
}

/// The boolean a value carries, defaulting to false off the `Bool` variant.
pub open spec fn bool_of(v: SpecValue) -> bool {
    match v {
        SpecValue::Bool(b) => b,
        _ => false,
    }
}

pub open spec fn is_ws(c: char) -> bool {
    c == ' ' || c == '\t' || c == '\n' || c == '\r'
}

/// The first index at or after `i` holding a non-whitespace character.
pub open spec fn skip_ws(s: Seq<char>, i: int) -> int
    decreases s.len() - i,
{
    if 0 <= i < s.len() && is_ws(s[i]) {
        skip_ws(s, i + 1)
    } else {
        i
    }
}

pub proof fn lemma_skip_ws_bounds(s: Seq<char>, i: int)
    requires
        0 <= i <= s.len(),
    ensures
        i <= skip_ws(s, i) <= s.len(),
    decreases s.len() - i,
{
    if i < s.len() && is_ws(s[i]) {
        lemma_skip_ws_bounds(s, i + 1);
    }
}

fn skip_ws_ex(s: &[char], i: usize) -> (r: usize)
    requires
        i <= s@.len(),
    ensures
        r == skip_ws(s@, i as int),
        i <= r <= s@.len(),
{
    let mut j = i;
    while j < s.len() && (s[j] == ' ' || s[j] == '\t' || s[j] == '\n' || s[j] == '\r')
        invariant
            i <= j <= s@.len(),
            skip_ws(s@, i as int) == skip_ws(s@, j as int),
        decreases s@.len() - j,
    {
        j = j + 1;
    }
    proof {
        lemma_skip_ws_bounds(s@, j as int);
    }
    j
}

pub open spec fn is_digit(c: char) -> bool {
    48 <= c as u32 <= 57
}

pub open spec fn is_hex_char(c: char) -> bool {
    is_digit(c) || (97 <= c as u32 <= 102) || (65 <= c as u32 <= 70)
}

/// The value of one hexadecimal digit (lower or upper case).
pub open spec fn hex_val(c: char) -> int {
    if is_digit(c) {
        c as u32 - 48
    } else if 97 <= c as u32 <= 102 {
        c as u32 - 97 + 10
    } else {
        c as u32 - 65 + 10
    }
}

fn hex_val_ex(c: char) -> (r: u32)
    requires
        is_hex_char(c),
    ensures
        r == hex_val(c),
        r < 16,
{
    let n = c as u32;
    if n >= 97 {
        n - 97 + 10
    } else if n >= 65 {
        n - 65 + 10
    } else {
        n - 48
    }
}

/// The control character with code `n`, for the `\u00XX` escapes; JSON
/// strings cannot carry these characters raw.
pub open spec fn control_char(n: int) -> char {
    if n == 0 { '\u{0}' }
    else if n == 1 { '\u{1}' }
    else if n == 2 { '\u{2}' }
    else if n == 3 { '\u{3}' }
    else if n == 4 { '\u{4}' }
    else if n == 5 { '\u{5}' }
    else if n == 6 { '\u{6}' }
    else if n == 7 { '\u{7}' }
    else if n == 8 { '\u{8}' }
    else if n == 9 { '\u{9}' }
    else if n == 10 { '\u{a}' }
    else if n == 11 { '\u{b}' }
    else if n == 12 { '\u{c}' }
    else if n == 13 { '\u{d}' }
    else if n == 14 { '\u{e}' }
    else if n == 15 { '\u{f}' }
    else if n == 16 { '\u{10}' }
    else if n == 17 { '\u{11}' }
    else if n == 18 { '\u{12}' }
    else if n == 19 { '\u{13}' }
    else if n == 20 { '\u{14}' }
    else if n == 21 { '\u{15}' }
    else if n == 22 { '\u{16}' }
    else if n == 23 { '\u{17}' }
    else if n == 24 { '\u{18}' }
    else if n == 25 { '\u{19}' }
    else if n == 26 { '\u{1a}' }
    else if n == 27 { '\u{1b}' }
    else if n == 28 { '\u{1c}' }
    else if n == 29 { '\u{1d}' }
    else if n == 30 { '\u{1e}' }
    else { '\u{1f}' }
}

fn control_char_ex(n: u32) -> (c: char)
    requires
        n < 32,
    ensures
        c == control_char(n as int),
{
    if n == 0 { '\u{0}' }
    else if n == 1 { '\u{1}' }
    else if n == 2 { '\u{2}' }
    else if n == 3 { '\u{3}' }
    else if n == 4 { '\u{4}' }
    else if n == 5 { '\u{5}' }
    else if n == 6 { '\u{6}' }
    else if n == 7 { '\u{7}' }
    else if n == 8 { '\u{8}' }
    else if n == 9 { '\u{9}' }
    else if n == 10 { '\u{a}' }
    else if n == 11 { '\u{b}' }
    else if n == 12 { '\u{c}' }
    else if n == 13 { '\u{d}' }
    else if n == 14 { '\u{e}' }
    else if n == 15 { '\u{f}' }
    else if n == 16 { '\u{10}' }
    else if n == 17 { '\u{11}' }
    else if n == 18 { '\u{12}' }
    else if n == 19 { '\u{13}' }
    else if n == 20 { '\u{14}' }
    else if n == 21 { '\u{15}' }
    else if n == 22 { '\u{16}' }
    else if n == 23 { '\u{17}' }
    else if n == 24 { '\u{18}' }
    else if n == 25 { '\u{19}' }
    else if n == 26 { '\u{1a}' }
    else if n == 27 { '\u{1b}' }
    else if n == 28 { '\u{1c}' }
    else if n == 29 { '\u{1d}' }
    else if n == 30 { '\u{1e}' }
    else { '\u{1f}' }
}

/// What a backslash escape other than `\u` stands for.
pub open spec fn simple_escape(c: char) -> Option<char> {
    if c == '"' { Some('"') }
    else if c == '\\' { Some('\\') }
    else if c == '/' { Some('/') }
    else if c == 'b' { Some('\u{8}') }
    else if c == 'f' { Some('\u{c}') }
    else if c == 'n' { Some('\n') }
    else if c == 'r' { Some('\r') }
    else if c == 't' { Some('\t') }
    else { None }
}

/// The body of a JSON string starting just after its opening quote: the
/// decoded characters, and the index just past the closing quote. Raw
/// control characters, unknown escapes, unicode escapes outside the
/// control range, and an unterminated string all reject.
pub open spec fn parse_str_body(s: Seq<char>, i: int) -> Option<(Seq<char>, int)>
    decreases s.len() - i,
{
    if i < 0 || i >= s.len() {
        None
    } else if s[i] == '"' {
        Some((Seq::empty(), i + 1))
    } else if s[i] == '\\' {
        if i + 1 < s.len() {
            if s[i + 1] == 'u' {
                if i + 5 < s.len() && s[i + 2] == '0' && s[i + 3] == '0' && is_hex_char(s[i + 4])
                    && is_hex_char(s[i + 5]) && hex_val(s[i + 4]) * 16 + hex_val(s[i + 5]) < 32 {
                    let c = control_char(hex_val(s[i + 4]) * 16 + hex_val(s[i + 5]));
                    match parse_str_body(s, i + 6) {
                        Some(p) => Some((seq![c] + p.0, p.1)),
                        None => None,
                    }
                } else {
                    None
                }
            } else {
                match simple_escape(s[i + 1]) {
                    Some(c) => match parse_str_body(s, i + 2) {
                        Some(p) => Some((seq![c] + p.0, p.1)),
                        None => None,
                    },
                    None => None,
                }
            }
        } else {
            None
        }
    } else if (s[i] as u32) < 32 {
        None
    } else {
        match parse_str_body(s, i + 1) {
            Some(p) => Some((seq![s[i]] + p.0, p.1)),
            None => None,
        }
    }
}

pub proof fn lemma_parse_str_body_bounds(s: Seq<char>, i: int)
    requires
        0 <= i,
    ensures
        parse_str_body(s, i) matches Some(p) ==> i < p.1 <= s.len(),
    decreases s.len() - i,
{
    if 0 <= i < s.len() {
        if s[i] == '\\' && i + 1 < s.len() {
            if s[i + 1] == 'u' {
                if i + 5 < s.len() {
                    lemma_parse_str_body_bounds(s, i + 6);
                }
            } else {
                lemma_parse_str_body_bounds(s, i + 2);
            }
        } else {
            lemma_parse_str_body_bounds(s, i + 1);
        }
    }
}

fn parse_str_body_ex(s: &[char], i: usize) -> (r: Option<(String, usize)>)
    requires
        i <= s@.len(),
    ensures
        (r is Some <==> parse_str_body(s@, i as int) is Some),
        r matches Some(v) ==> parse_str_body(s@, i as int) matches Some(p) && v.0@ == p.0 && v.1
            == p.1 && i < v.1 <= s@.len(),
    decreases s@.len() - i,
{
    proof {
        lemma_parse_str_body_bounds(s@, i as int);
    }
    if i >= s.len() {
        return None;
    }
    let c = s[i];
    if c == '"' {
        Some((String::new(), i + 1))
    } else if c == '\\' {
        if i + 1 < s.len() {
            let e = s[i + 1];
            if e == 'u' {
                if s.len() - i > 5 && s[i + 2] == '0' && s[i + 3] == '0' && is_hex_char_ex(s[i + 4])
                    && is_hex_char_ex(s[i + 5]) {
                    let code = hex_val_ex(s[i + 4]) * 16 + hex_val_ex(s[i + 5]);
                    if code < 32 {
                        let dec = control_char_ex(code);
                        match parse_str_body_ex(s, i + 6) {
                            Some((rest, j)) => {
                                let mut out = String::new();
                                out.push(dec);
                                out.append(rest.as_str());
                                Some((out, j))
                            },
                            None => None,
                        }
                    } else {
                        None
                    }
                } else {
                    None
                }
            } else {
                let dec: Option<char> = if e == '"' { Some('"') }
                else if e == '\\' { Some('\\') }
                else if e == '/' { Some('/') }
                else if e == 'b' { Some('\u{8}') }
                else if e == 'f' { Some('\u{c}') }
                else if e == 'n' { Some('\n') }
                else if e == 'r' { Some('\r') }
                else if e == 't' { Some('\t') }
                else { None };
                match dec {
                    Some(d) => match parse_str_body_ex(s, i + 2) {
                        Some((rest, j)) => {
                            let mut out = String::new();
                            out.push(d);
                            out.append(rest.as_str());
                            Some((out, j))
                        },
                        None => None,
                    },
                    None => None,
                }
            }
        } else {
            None
        }
    } else if (c as u32) < 32 {
        None
    } else {
        match parse_str_body_ex(s, i + 1) {
            Some((rest, j)) => {
                let mut out = String::new();
                out.push(c);
                out.append(rest.as_str());
                Some((out, j))
            },
            None => None,
        }
    }
}

fn is_hex_char_ex(c: char) -> (r: bool)
    ensures
        r == is_hex_char(c),
{
    let n = c as u32;
    (48 <= n && n <= 57) || (97 <= n && n <= 102) || (65 <= n && n <= 70)
}

/// The first index at or after `i` holding a non-digit character.
pub open spec fn digits_end(s: Seq<char>, i: int) -> int
    decreases s.len() - i,
{
    if 0 <= i < s.len() && is_digit(s[i]) {
        digits_end(s, i + 1)
    } else {
        i
    }
}

pub proof fn lemma_digits_end_bounds(s: Seq<char>, i: int)
    requires
        0 <= i <= s.len(),
    ensures
        i <= digits_end(s, i) <= s.len(),
        forall|k: int| i <= k < digits_end(s, i) ==> is_digit(s[k]),
    decreases s.len() - i,
{
    if i < s.len() && is_digit(s[i]) {
        lemma_digits_end_bounds(s, i + 1);
    }
}

fn digits_end_ex(s: &[char], i: usize) -> (r: usize)
    requires
        i <= s@.len(),
    ensures
        r == digits_end(s@, i as int),
        i <= r <= s@.len(),
{
    let mut j = i;
    while j < s.len() && 48 <= s[j] as u32 && s[j] as u32 <= 57
        invariant
            i <= j <= s@.len(),
            digits_end(s@, i as int) == digits_end(s@, j as int),
        decreases s@.len() - j,
    {
        j = j + 1;
    }
    proof {
        lemma_digits_end_bounds(s@, j as int);
    }
    j
}

/// The value of the decimal digit run `s[i..j]`.
pub open spec fn digits_val(s: Seq<char>, i: int, j: int) -> int
    decreases j - i,
{
    if i < j {
        digits_val(s, i, j - 1) * 10 + (s[j - 1] as u32 - 48)
    } else {
        0
    }
}

pub open spec fn pow10(n: int) -> int
    decreases n,
{
    if n <= 0 {
        1
    } else {
        10 * pow10(n - 1)
    }
}

pub proof fn lemma_digits_val_bound(s: Seq<char>, i: int, j: int)
    requires
        i <= j,
        forall|k: int| i <= k < j ==> is_digit(s[k]),
    ensures
        0 <= digits_val(s, i, j) < pow10(j - i),
    decreases j - i,
{
    if i < j {
        lemma_digits_val_bound(s, i, j - 1);
    }
}

/// The end of a JSON number's fraction part at `i`, or `i` itself when
/// there is none; a bare `.` rejects.
pub open spec fn after_frac(s: Seq<char>, i: int) -> Option<int> {
    if 0 <= i < s.len() && s[i] == '.' {
        if digits_end(s, i + 1) == i + 1 {
            None
        } else {
            Some(digits_end(s, i + 1))
        }
    } else {
        Some(i)
    }
}

/// The end of a JSON number's exponent part at `i`, or `i` itself when
/// there is none; a bare `e` or sign rejects.
pub open spec fn after_exp(s: Seq<char>, i: int) -> Option<int> {
    if 0 <= i < s.len() && (s[i] == 'e' || s[i] == 'E') {
        let d0 = if i + 1 < s.len() && (s[i + 1] == '+' || s[i + 1] == '-') {
            i + 2
        } else {
            i + 1
        };
        if digits_end(s, d0) == d0 {
            None
        } else {
            Some(digits_end(s, d0))
        }
    } else {
        Some(i)
    }
}

/// A JSON number at `i`. An integer of at most eighteen digits decodes to
/// its value; a longer integer, or one with a fraction or exponent, is
/// carried opaquely as [`SpecValue::Composite`].
pub open spec fn parse_number(s: Seq<char>, i: int) -> Option<(SpecValue, int)> {
    let d0 = if 0 <= i < s.len() && s[i] == '-' {
        i + 1
    } else {
        i
    };
    let neg = d0 != i;
    let d1 = digits_end(s, d0);
    if d1 == d0 {
        None
    } else {
        match after_frac(s, d1) {
            None => None,
            Some(f) => match after_exp(s, f) {
                None => None,
                Some(e) => if e > d1 {
                    Some((SpecValue::Composite, e))
                } else if d1 - d0 <= 18 {
                    if neg {
                        Some((SpecValue::Int(-digits_val(s, d0, d1)), d1))
                    } else {
                        Some((SpecValue::Int(digits_val(s, d0, d1)), d1))
                    }
                } else {
                    Some((SpecValue::Composite, d1))
                },
            },
        }
    }
}

pub proof fn lemma_pow10_pos(n: int)
    ensures
        pow10(n) >= 1,
    decreases n,
{
    if n > 0 {
        lemma_pow10_pos(n - 1);
    }
}

pub proof fn lemma_pow10_mono(a: int, b: int)
    requires
        a <= b,
    ensures
        pow10(a) <= pow10(b),
    decreases b - a,
{
    lemma_pow10_pos(a);
    if a < b {
        lemma_pow10_mono(a, b - 1);
        lemma_pow10_pos(b - 1);
    }
}

/// Decode a run of at most eighteen digits.
fn digits_val_ex(s: &[char], i: usize, j: usize) -> (r: u64)
    requires
        i <= j <= s@.len(),
        j - i <= 18,
        forall|k: int| i <= k < j ==> is_digit(s@[k]),
    ensures
        r == digits_val(s@, i as int, j as int),
{
    let mut acc: u64 = 0;
    let mut k = i;
    while k < j
        invariant
            i <= k <= j <= s@.len(),
            j - i <= 18,
            forall|m: int| i <= m < j ==> is_digit(s@[m]),
            acc == digits_val(s@, i as int, k as int),
            acc < pow10(k - i as int),
        decreases j - k,
    {
        proof {
            lemma_pow10_mono(k - i as int, 17);
            assert(pow10(17) == 100000000000000000) by {
                reveal_with_fuel(pow10, 19);
            }
        }
        let d = (s[k] as u32 - 48) as u64;
        acc = acc * 10 + d;
        k = k + 1;
    }
    acc
}

fn parse_number_ex(s: &[char], i: usize) -> (r: Option<(ShallowValue, usize)>)
    requires
        i <= s@.len(),
    ensures
        (r is Some <==> parse_number(s@, i as int) is Some),
        r matches Some(v) ==> parse_number(s@, i as int) matches Some(p) && v.0@ == p.0 && v.1
            == p.1 && i <= v.1 <= s@.len(),
{
    let d0 = if i < s.len() && s[i] == '-' {
        i + 1
    } else {
        i
    };
    let neg = d0 != i;
    let d1 = digits_end_ex(s, d0);
    if d1 == d0 {
        return None;
    }
    proof {
        lemma_digits_end_bounds(s@, d0 as int);
    }
    // fraction part
    let f: usize = if d1 < s.len() && s[d1] == '.' {
        let fe = digits_end_ex(s, d1 + 1);
        if fe == d1 + 1 {
            return None;
        }
        fe
    } else {
        d1
    };
    // exponent part
    let e: usize = if f < s.len() && (s[f] == 'e' || s[f] == 'E') {
        let x0 = if f + 1 < s.len() && (s[f + 1] == '+' || s[f + 1] == '-') {
            f + 2
        } else {
            f + 1
        };
        let xe = digits_end_ex(s, x0);
        if xe == x0 {
            return None;
        }
        xe
    } else {
        f
    };
    if e > d1 {
        Some((ShallowValue::Composite, e))
    } else if d1 - d0 <= 18 {
        proof {
            lemma_digits_val_bound(s@, d0 as int, d1 as int);
            lemma_pow10_mono(d1 - d0 as int, 18);
            assert(pow10(18) == 1000000000000000000) by {
                reveal_with_fuel(pow10, 19);
            }
        }
        let mag = digits_val_ex(s, d0, d1);
        if neg {
            Some((ShallowValue::Int(-(mag as i64)), d1))
        } else {
            Some((ShallowValue::Int(mag as i64), d1))
        }
    } else {
        Some((ShallowValue::Composite, d1))
    }
}

/// A `true`, `false` or `null` literal at `i`.
pub open spec fn parse_literal(s: Seq<char>, i: int) -> Option<(SpecValue, int)> {
    if 0 <= i && i + 4 <= s.len() && s[i] == 't' && s[i + 1] == 'r' && s[i + 2] == 'u' && s[i + 3]
        == 'e' {
        Some((SpecValue::Bool(true), i + 4))
    } else if 0 <= i && i + 5 <= s.len() && s[i] == 'f' && s[i + 1] == 'a' && s[i + 2] == 'l' && s[i
        + 3] == 's' && s[i + 4] == 'e' {
        Some((SpecValue::Bool(false), i + 5))
    } else if 0 <= i && i + 4 <= s.len() && s[i] == 'n' && s[i + 1] == 'u' && s[i + 2] == 'l' && s[i
        + 3] == 'l' {
        Some((SpecValue::Null, i + 4))
    } else {
        None
    }
}

fn parse_literal_ex(s: &[char], i: usize) -> (r: Option<(ShallowValue, usize)>)
    requires
        i <= s@.len(),
    ensures
        (r is Some <==> parse_literal(s@, i as int) is Some),
        r matches Some(v) ==> parse_literal(s@, i as int) matches Some(p) && v.0@ == p.0 && v.1
            == p.1 && i < v.1 <= s@.len(),
{
    if s.len() - i >= 4 && s[i] == 't' && s[i + 1] == 'r' && s[i + 2] == 'u' && s[i + 3] == 'e' {
        Some((ShallowValue::Bool(true), i + 4))
    } else if s.len() - i >= 5 && s[i] == 'f' && s[i + 1] == 'a' && s[i + 2] == 'l' && s[i + 3]
        == 's' && s[i + 4] == 'e' {
        Some((ShallowValue::Bool(false), i + 5))
    } else if s.len() - i >= 4 && s[i] == 'n' && s[i + 1] == 'u' && s[i + 2] == 'l' && s[i + 3]
        == 'l' {
        Some((ShallowValue::Null, i + 4))
    } else {
        None
    }
}

/// A scalar value at `i`: a string, number, boolean or null. Objects and
/// arrays are not scalars.
pub open spec fn parse_scalar(s: Seq<char>, i: int) -> Option<(SpecValue, int)> {
    if 0 <= i < s.len() {
        if s[i] == '"' {
            match parse_str_body(s, i + 1) {
                Some(p) => Some((SpecValue::Str(p.0), p.1)),
                None => None,
            }
        } else if s[i] == '-' || is_digit(s[i]) {
            parse_number(s, i)
        } else {
            parse_literal(s, i)
        }
    } else {
        None
    }
}

fn parse_scalar_ex(s: &[char], i: usize) -> (r: Option<(ShallowValue, usize)>)
    requires
        i <= s@.len(),
    ensures
        (r is Some <==> parse_scalar(s@, i as int) is Some),
        r matches Some(v) ==> parse_scalar(s@, i as int) matches Some(p) && v.0@ == p.0 && v.1
            == p.1 && i <= v.1 <= s@.len(),
{
    if i >= s.len() {
        return None;
    }
    let c = s[i];
    if c == '"' {
        match parse_str_body_ex(s, i + 1) {
            Some((content, j)) => Some((ShallowValue::Str(content), j)),
            None => None,
        }
    } else if c == '-' || (48 <= c as u32 && c as u32 <= 57) {
        parse_number_ex(s, i)
    } else {
        parse_literal_ex(s, i)
    }
}

/// Skip a nested object or array by balanced brackets, respecting strings
/// and escapes: the index just past the matching close bracket, or `None`
/// when the input ends first.
pub open spec fn skip_composite(s: Seq<char>, i: int, depth: int, in_str: bool, esc: bool) -> Option<
    int,
>
    decreases s.len() - i,
{
    if i < 0 || i >= s.len() {
        None
    } else {
        let c = s[i];
        if in_str {
            if esc {
                skip_composite(s, i + 1, depth, true, false)
            } else if c == '\\' {
                skip_composite(s, i + 1, depth, true, true)
            } else if c == '"' {
                skip_composite(s, i + 1, depth, false, false)
            } else {
                skip_composite(s, i + 1, depth, true, false)
            }
        } else {
            if c == '{' || c == '[' {
                skip_composite(s, i + 1, depth + 1, false, false)
            } else if c == '}' || c == ']' {
                if depth == 1 {
                    Some(i + 1)
                } else if depth <= 0 {
                    None
                } else {
                    skip_composite(s, i + 1, depth - 1, false, false)
                }
            } else if c == '"' {
                skip_composite(s, i + 1, depth, true, false)
            } else {
                skip_composite(s, i + 1, depth, false, false)
            }
        }
    }
}

fn skip_composite_ex(s: &[char], i: usize) -> (r: Option<usize>)
    requires
        i <= s@.len(),
    ensures
        (r is Some <==> skip_composite(s@, i as int, 0, false, false) is Some),
        r matches Some(j) ==> skip_composite(s@, i as int, 0, false, false) == Some(j as int) && i
            < j <= s@.len(),
{
    let mut j = i;
    let mut depth: usize = 0;
    let mut in_str = false;
    let mut esc = false;
    loop
        invariant
            i <= j <= s@.len(),
            depth <= j,
            !in_str ==> !esc,
            skip_composite(s@, i as int, 0, false, false) == skip_composite(
                s@,
                j as int,
                depth as int,
                in_str,
                esc,
            ),
        decreases s@.len() - j,
    {
        if j >= s.len() {
            return None;
        }
        let c = s[j];
        if in_str {
            if esc {
                esc = false;
            } else if c == '\\' {
                esc = true;
            } else if c == '"' {
                in_str = false;
            }
        } else {
            if c == '{' || c == '[' {
                depth = depth + 1;
            } else if c == '}' || c == ']' {
                if depth == 1 {
                    return Some(j + 1);
                } else if depth == 0 {
                    return None;
                } else {
                    depth = depth - 1;
                }
            } else if c == '"' {
                in_str = true;
            }
        }
        j = j + 1;
    }
}

/// A shallow value at `i`: a nested object or array is skipped and carried
/// as [`SpecValue::Composite`]; anything else must be a scalar.
pub open spec fn parse_value_shallow(s: Seq<char>, i: int) -> Option<(SpecValue, int)> {
    if 0 <= i < s.len() && (s[i] == '{' || s[i] == '[') {
        match skip_composite(s, i, 0, false, false) {
            Some(j) => Some((SpecValue::Composite, j)),
            None => None,
        }
    } else {
        parse_scalar(s, i)
    }
}

fn parse_value_shallow_ex(s: &[char], i: usize) -> (r: Option<(ShallowValue, usize)>)
    requires
        i <= s@.len(),
    ensures
        (r is Some <==> parse_value_shallow(s@, i as int) is Some),
        r matches Some(v) ==> parse_value_shallow(s@, i as int) matches Some(p) && v.0@ == p.0
            && v.1 == p.1 && i <= v.1 <= s@.len(),
{
    if i < s.len() && (s[i] == '{' || s[i] == '[') {
        match skip_composite_ex(s, i) {
            Some(j) => Some((ShallowValue::Composite, j)),
            None => None,
        }
    } else {
        parse_scalar_ex(s, i)
    }
}

/// One or more `"key": value` pairs separated by commas, with surrounding
/// whitespace, starting at `i`: the decoded pairs in body order, and the
/// index of the character that ends them (the expected `}`). The
/// `k5 + 1 > i` test only discharges termination; a parsed pair always
/// advances.
pub open spec fn parse_members(s: Seq<char>, i: int) -> Option<(Seq<(Seq<char>, SpecValue)>, int)>
    decreases s.len() - i,
{
    let k0 = skip_ws(s, i);
    if 0 <= k0 < s.len() && s[k0] == '"' {
        match parse_str_body(s, k0 + 1) {
            None => None,
            Some(kp) => {
                let k2 = skip_ws(s, kp.1);
                if 0 <= k2 < s.len() && s[k2] == ':' {
                    match parse_value_shallow(s, skip_ws(s, k2 + 1)) {
                        None => None,
                        Some(vp) => {
                            let k5 = skip_ws(s, vp.1);
                            if 0 <= k5 < s.len() && s[k5] == ',' {
                                if k5 + 1 > i {
                                    match parse_members(s, k5 + 1) {
                                        None => None,
                                        Some(rp) => Some((seq![(kp.0, vp.0)] + rp.0, rp.1)),
                                    }
                                } else {
                                    None
                                }
                            } else {
                                Some((seq![(kp.0, vp.0)], k5))
                            }
                        },
                    }
                } else {
                    None
                }
            },
        }
    } else {
        None
    }
}

fn parse_members_ex(s: &[char], i: usize) -> (r: Option<(Vec<(String, ShallowValue)>, usize)>)
    requires
        i <= s@.len(),
    ensures
        (r is Some <==> parse_members(s@, i as int) is Some),
        r matches Some(v) ==> parse_members(s@, i as int) matches Some(p) && view_fields(v.0@)
            == p.0 && v.1 == p.1 && v.1 <= s@.len(),
    decreases s@.len() - i,
{
    let k0 = skip_ws_ex(s, i);
    if !(k0 < s.len() && s[k0] == '"') {
        return None;
    }
    let (key, k1) = match parse_str_body_ex(s, k0 + 1) {
        None => { return None; },
        Some(p) => p,
    };
    let k2 = skip_ws_ex(s, k1);
    if !(k2 < s.len() && s[k2] == ':') {
        return None;
    }
    let k3 = skip_ws_ex(s, k2 + 1);
    let (val, k4) = match parse_value_shallow_ex(s, k3) {
        None => { return None; },
        Some(p) => p,
    };
    let k5 = skip_ws_ex(s, k4);
    if k5 < s.len() && s[k5] == ',' {
        if k5 + 1 > i {
            match parse_members_ex(s, k5 + 1) {
                None => None,
                Some((mut rest, j)) => {
                    let mut out: Vec<(String, ShallowValue)> = Vec::new();
                    let ghost gkey = key@;
                    let ghost gval = val@;
                    let ghost grest = rest@;
                    out.push((key, val));
                    out.append(&mut rest);
                    proof {
                        assert(out@ =~= seq![(out@[0].0, out@[0].1)] + grest);
                        assert(view_fields(out@) =~= seq![(gkey, gval)] + view_fields(grest));
                    }
                    Some((out, j))
                },
            }
        } else {
            None
        }
    } else {
        let ghost gkey = key@;
        let ghost gval = val@;
        let mut out: Vec<(String, ShallowValue)> = Vec::new();
        out.push((key, val));
        proof {
            assert(view_fields(out@) =~= seq![(gkey, gval)]);
        }
        Some((out, k5))
    }
}

/// A whole JSON object at `i`: its shallow-decoded fields and the index
/// just past the closing brace.
pub open spec fn parse_object_at(s: Seq<char>, i: int) -> Option<(Seq<(Seq<char>, SpecValue)>, int)> {
    if 0 <= i < s.len() && s[i] == '{' {
        let j = skip_ws(s, i + 1);
        if 0 <= j < s.len() && s[j] == '}' {
            Some((Seq::empty(), j + 1))
        } else {
            match parse_members(s, i + 1) {
                None => None,
                Some(p) => if 0 <= p.1 < s.len() && s[p.1] == '}' {
                    Some((p.0, p.1 + 1))
                } else {
                    None
                },
            }
        }
    } else {
        None
    }
}

fn parse_object_at_ex(s: &[char], i: usize) -> (r: Option<(Vec<(String, ShallowValue)>, usize)>)
    requires
        i <= s@.len(),
    ensures
        (r is Some <==> parse_object_at(s@, i as int) is Some),
        r matches Some(v) ==> parse_object_at(s@, i as int) matches Some(p) && view_fields(v.0@)
            == p.0 && v.1 == p.1 && v.1 <= s@.len(),
{
    if !(i < s.len() && s[i] == '{') {
        return None;
    }
    let j = skip_ws_ex(s, i + 1);
    if j < s.len() && s[j] == '}' {
        let out: Vec<(String, ShallowValue)> = Vec::new();
        proof {
            assert(view_fields(out@) =~= Seq::<(Seq<char>, SpecValue)>::empty());
        }
        return Some((out, j + 1));
    }
    match parse_members_ex(s, i + 1) {
        None => None,
        Some((fields, k)) => {
            if k < s.len() && s[k] == '}' {
                Some((fields, k + 1))
            } else {
                None
            }
        },
    }
}

/// The whole body as one JSON object with shallow-decoded fields: leading
/// and trailing whitespace allowed, nothing else around the object.
pub open spec fn spec_parse_flat(s: Seq<char>) -> Option<Seq<(Seq<char>, SpecValue)>> {
    match parse_object_at(s, skip_ws(s, 0)) {
        None => None,
        Some(p) => if skip_ws(s, p.1) == s.len() {
            Some(p.0)
        } else {
            None
        },
    }
}

/// Decode the whole body as one JSON object with shallow fields.
pub fn parse_flat_object(body: &str) -> (r: Option<Vec<(String, ShallowValue)>>)
    ensures
        (r is Some <==> spec_parse_flat(body@) is Some),
        r matches Some(v) ==> spec_parse_flat(body@) matches Some(f) && view_fields(v@) == f,
{
    let chars = str_to_chars(body);
    let s = chars.as_slice();
    let i = skip_ws_ex(s, 0);
    match parse_object_at_ex(s, i) {
        None => None,
        Some((fields, j)) => {
            if skip_ws_ex(s, j) == s.len() {
                Some(fields)
            } else {
                None
            }
        },
    }
}

/// The spec-level form of a decoded object-of-objects.
pub open spec fn view_map(v: Seq<(String, Vec<(String, ShallowValue)>)>) -> Seq<
    (Seq<char>, Seq<(Seq<char>, SpecValue)>),
> {
    v.map_values(|p: (String, Vec<(String, ShallowValue)>)| (p.0@, view_fields(p.1@)))
}

/// One or more `"key": { ... }` pairs whose values must themselves be
/// objects, decoded shallowly; the asset catalogues have this shape.
pub open spec fn parse_map_members(s: Seq<char>, i: int) -> Option<
    (Seq<(Seq<char>, Seq<(Seq<char>, SpecValue)>)>, int),
>
    decreases s.len() - i,
{
    let k0 = skip_ws(s, i);
    if 0 <= k0 < s.len() && s[k0] == '"' {
        match parse_str_body(s, k0 + 1) {
            None => None,
            Some(kp) => {
                let k2 = skip_ws(s, kp.1);
                if 0 <= k2 < s.len() && s[k2] == ':' {
                    match parse_object_at(s, skip_ws(s, k2 + 1)) {
                        None => None,
                        Some(vp) => {
                            let k5 = skip_ws(s, vp.1);
                            if 0 <= k5 < s.len() && s[k5] == ',' {
                                if k5 + 1 > i {
                                    match parse_map_members(s, k5 + 1) {
                                        None => None,
                                        Some(rp) => Some((seq![(kp.0, vp.0)] + rp.0, rp.1)),
                                    }
                                } else {
                                    None
                                }
                            } else {
                                Some((seq![(kp.0, vp.0)], k5))
                            }
                        },
                    }
                } else {
                    None
                }
            },
        }
    } else {
        None
    }
}

fn parse_map_members_ex(s: &[char], i: usize) -> (r: Option<
    (Vec<(String, Vec<(String, ShallowValue)>)>, usize),
>)
    requires
        i <= s@.len(),
    ensures
        (r is Some <==> parse_map_members(s@, i as int) is Some),
        r matches Some(v) ==> parse_map_members(s@, i as int) matches Some(p) && view_map(v.0@)
            == p.0 && v.1 == p.1 && v.1 <= s@.len(),
    decreases s@.len() - i,
{
    let k0 = skip_ws_ex(s, i);
    if !(k0 < s.len() && s[k0] == '"') {
        return None;
    }
    let (key, k1) = match parse_str_body_ex(s, k0 + 1) {
        None => { return None; },
        Some(p) => p,
    };
    let k2 = skip_ws_ex(s, k1);
    if !(k2 < s.len() && s[k2] == ':') {
        return None;
    }
    let k3 = skip_ws_ex(s, k2 + 1);
    let (val, k4) = match parse_object_at_ex(s, k3) {
        None => { return None; },
        Some(p) => p,
    };
    let k5 = skip_ws_ex(s, k4);
    if k5 < s.len() && s[k5] == ',' {
        if k5 + 1 > i {
            match parse_map_members_ex(s, k5 + 1) {
                None => None,
                Some((mut rest, j)) => {
                    let mut out: Vec<(String, Vec<(String, ShallowValue)>)> = Vec::new();
                    let ghost gkey = key@;
                    let ghost gval = view_fields(val@);
                    let ghost grest = rest@;
                    out.push((key, val));
                    out.append(&mut rest);
                    proof {
                        assert(view_map(out@) =~= seq![(gkey, gval)] + view_map(grest));
                    }
                    Some((out, j))
                },
            }
        } else {
            None
        }
    } else {
        let ghost gkey = key@;
        let ghost gval = view_fields(val@);
        let mut out: Vec<(String, Vec<(String, ShallowValue)>)> = Vec::new();
        out.push((key, val));
        proof {
            assert(view_map(out@) =~= seq![(gkey, gval)]);
        }
        Some((out, k5))
    }
}

/// The whole body as one JSON object whose every value is itself an
/// object, each decoded shallowly.
pub open spec fn spec_parse_object_map(s: Seq<char>) -> Option<
    Seq<(Seq<char>, Seq<(Seq<char>, SpecValue)>)>,
> {
    let i = skip_ws(s, 0);
    if 0 <= i < s.len() && s[i] == '{' {
        let j = skip_ws(s, i + 1);
        if 0 <= j < s.len() && s[j] == '}' {
            if skip_ws(s, j + 1) == s.len() {
                Some(Seq::empty())
            } else {
                None
            }
        } else {
            match parse_map_members(s, i + 1) {
                None => None,
                Some(p) => if 0 <= p.1 < s.len() && s[p.1] == '}' && skip_ws(s, p.1 + 1) == s.len() {
                    Some(p.0)
                } else {
                    None
                },
            }
        }
    } else {
        None
    }
}

/// Decode the whole body as one JSON object of objects.
pub fn parse_object_map(body: &str) -> (r: Option<Vec<(String, Vec<(String, ShallowValue)>)>>)
    ensures
        (r is Some <==> spec_parse_object_map(body@) is Some),
        r matches Some(v) ==> spec_parse_object_map(body@) matches Some(f) && view_map(v@) == f,
{
    let chars = str_to_chars(body);
    let s = chars.as_slice();
    let i = skip_ws_ex(s, 0);
    if !(i < s.len() && s[i] == '{') {
        return None;
    }
    let j = skip_ws_ex(s, i + 1);
    if j < s.len() && s[j] == '}' {
        if skip_ws_ex(s, j + 1) == s.len() {
            let out: Vec<(String, Vec<(String, ShallowValue)>)> = Vec::new();
            proof {
                assert(view_map(out@) =~= Seq::<(Seq<char>, Seq<(Seq<char>, SpecValue)>)>::empty());
            }
            return Some(out);
        } else {
            return None;
        }
    }
    match parse_map_members_ex(s, i + 1) {
        None => None,
        Some((entries, k)) => {
            if k < s.len() && s[k] == '}' {
                if skip_ws_ex(s, k + 1) == s.len() {
                    Some(entries)
                } else {
                    None
                }
            } else {
                None
            }
        },
    }
}

/// Find the first binding of `name` among decoded fields.
pub fn get_field<'a>(fields: &'a Vec<(String, ShallowValue)>, name: &str) -> (r: Option<
    &'a ShallowValue,
>)
    ensures
        match lookup_field(view_fields(fields@), name@) {
            Some(v) => r matches Some(x) && x@ == v,
            None => r is None,
        },
{
    let ghost all = view_fields(fields@);
    proof {
        assert(all.skip(0) =~= all);
    }
    let mut i: usize = 0;
    while i < fields.len()
        invariant
            i <= fields@.len(),
            all == view_fields(fields@),
            lookup_field(all, name@) == lookup_field(all.skip(i as int), name@),
        decreases fields@.len() - i,
    {
        let p = &fields[i];
        if str_eq(p.0.as_str(), name) {
            proof {
                assert(all.skip(i as int)[0] == (fields@[i as int].0@, fields@[i as int].1@));
            }
            return Some(&p.1);
        }
        proof {
            assert(all.skip(i as int)[0] == (fields@[i as int].0@, fields@[i as int].1@));
            assert(all.skip(i as int).drop_first() =~= all.skip(i + 1 as int));
        }
        i = i + 1;
    }
    proof {
        assert(all.skip(i as int) =~= Seq::<(Seq<char>, SpecValue)>::empty());
    }
    None
}

/// The characters of `s`, for position-indexed scanning.
fn str_to_chars(s: &str) -> (r: Vec<char>)
    ensures
        r@ == s@,
{
    let n = s.unicode_len();
    let mut out: Vec<char> = Vec::new();
    let mut i: usize = 0;
    while i < n
        invariant
            n == s@.len(),
            i <= n,
            out@ == s@.subrange(0, i as int),
        decreases n - i,
    {
        out.push(s.get_char(i));
        proof {
            assert(out@ =~= s@.subrange(0, i + 1 as int));
        }
        i = i + 1;
    }
    proof {
        assert(out@ =~= s@);
    }
    out
}

/// No character of `s` is a quote, a backslash or a control character:
/// such text stands in a JSON string exactly as itself. Every email and
/// every base64 hash is of this form.
pub open spec fn no_specials(s: Seq<char>) -> bool {
    forall|k: int| 0 <= k < s.len() ==> s[k] != '"' && s[k] != '\\' && (s[k] as u32) >= 32
}

/// Text without specials is untouched by escaping.
pub proof fn lemma_escape_plain(s: Seq<char>)
    requires
        no_specials(s),
    ensures
        crate::auth::json_escape(s) == s,
    decreases s.len(),
{
    if s.len() == 0 {
        assert(crate::auth::json_escape(s) =~= s);
    } else {
        lemma_escape_plain(s.drop_first());
        assert(crate::auth::escape_char(s[0]) =~= seq![s[0]]);
        assert(seq![s[0]] + s.drop_first() =~= s);
    }
}

/// A field escaped by the wire framing decodes back to itself: at any
/// position where a sequence carries the escaped field and its closing
/// quote, the string parser returns exactly the field.
pub proof fn lemma_parse_escaped_at(t: Seq<char>, i: int, s: Seq<char>)
    requires
        0 <= i,
        no_specials(s),
        i + crate::auth::json_escape(s).len() < t.len(),
        t.subrange(i, i + crate::auth::json_escape(s).len() as int + 1) == crate::auth::json_escape(
            s,
        ).push('"'),
    ensures
        parse_str_body(t, i) == Some((s, i + crate::auth::json_escape(s).len() as int + 1)),
    decreases s.len(),
{
    let esc = crate::auth::json_escape(s);
    lemma_escape_plain(s);
    if s.len() == 0 {
        assert(t[i] == esc.push('"')[0]);
        assert(t[i] == '"');
    } else {
        let c = s[0];
        let rest = s.drop_first();
        let esc_rest = crate::auth::json_escape(rest);
        assert(crate::auth::escape_char(c) =~= seq![c]);
        assert(esc == crate::auth::escape_char(c) + esc_rest);
        assert(esc.len() == 1 + esc_rest.len());
        assert(t[i] == esc.push('"')[0]);
        assert(esc.push('"')[0] == c);
        lemma_escape_plain(rest);
        assert(t.subrange(i + 1, i + 1 + esc_rest.len() + 1) =~= esc_rest.push('"')) by {
            assert forall|k: int| 0 <= k < esc_rest.len() + 1 implies t.subrange(
                i + 1,
                i + 1 + esc_rest.len() + 1,
            )[k] == esc_rest.push('"')[k] by {
                assert(t.subrange(i + 1, i + 1 + esc_rest.len() + 1)[k] == t[i + 1 + k]);
                assert(t[i + 1 + k] == t.subrange(i, i + esc.len() + 1)[1 + k]);
                assert(esc.push('"')[1 + k] == (seq![c] + esc_rest.push('"'))[1 + k]) by {
                    assert(esc.push('"') =~= seq![c] + esc_rest.push('"'));
                }
            }
        }
        lemma_parse_escaped_at(t, i + 1, rest);
        assert(seq![c] + rest =~= s);
    }
}

/// The wire framing and the body decoder agree: an escaped field followed
/// by its closing quote and anything further parses back to the field.
pub proof fn lemma_escaped_field_parses_back(s: Seq<char>, tail: Seq<char>)
    requires
        no_specials(s),
    ensures
        parse_str_body(crate::auth::json_escape(s).push('"') + tail, 0) == Some(
            (s, crate::auth::json_escape(s).len() as int + 1),
        ),
{
    let t = crate::auth::json_escape(s).push('"') + tail;
    assert(t.subrange(0, crate::auth::json_escape(s).len() as int + 1) =~= crate::auth::json_escape(
        s,
    ).push('"'));
    lemma_parse_escaped_at(t, 0, s);
}

/// The decimal digits of a non-negative integer, most significant first.
pub open spec fn dec_digits(n: int) -> Seq<char>
    decreases n,
{
    if n < 10 {
        seq![crate::auth::hex_digit(if n < 0 { 0 } else { n })]
    } else {
        dec_digits(n / 10).push(crate::auth::hex_digit(n % 10))
    }
}

/// The canonical decimal rendering of an integer.
pub open spec fn spec_render_int(v: int) -> Seq<char> {
    if v < 0 {
        seq!['-'] + dec_digits(-v)
    } else {
        dec_digits(v)
    }
}

fn dec_digits_ex(n: u64) -> (r: String)
    ensures
        r@ == dec_digits(n as int),
    decreases n,
{
    if n < 10 {
        let mut s = String::new();
        s.push(crate::auth::hex_digit_ex(n as u32));
        proof {
            assert(s@ =~= seq![crate::auth::hex_digit(n as int)]);
        }
        s
    } else {
        let mut s = dec_digits_ex(n / 10);
        s.push(crate::auth::hex_digit_ex((n % 10) as u32));
        s
    }
}

/// Render an integer in its canonical decimal form, as [`spec_render_int`]
/// gives it.
pub fn render_int(v: i64) -> (r: String)
    ensures
        r@ == spec_render_int(v as int),
{
    if v >= 0 {
        dec_digits_ex(v as u64)
    } else {
        let mag: u64 = ((-(v + 1)) as u64) + 1;
        proof {
            assert(mag as int == -(v as int));
        }
        let mut s = String::new();
        s.push('-');
        let d = dec_digits_ex(mag);
        s.append(d.as_str());
        proof {
            assert(s@ =~= seq!['-'] + dec_digits(mag as int));
        }
        s
    }
}

/// Character-for-character string equality.
pub fn str_eq(a: &str, b: &str) -> (r: bool)
    ensures
        r == (a@ == b@),
{
    let na = a.unicode_len();
    let nb = b.unicode_len();
    if na != nb {
        proof {
            assert(a@ != b@);
        }
        return false;
    }
    let mut i: usize = 0;
    while i < na
        invariant
            na == a@.len(),
            na == b@.len(),
            i <= na,
            forall|k: int| 0 <= k < i ==> a@[k] == b@[k],
        decreases na - i,
    {
        if a.get_char(i) != b.get_char(i) {
            proof {
                assert(a@[i as int] != b@[i as int]);
            }
            return false;
        }
        i = i + 1;
    }
    proof {
        assert(a@ =~= b@);
    }
    true
}

} // verus!
