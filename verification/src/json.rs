//! The line-oriented wire format of the test tool, as a verified grammar.
//!
//! Each output line may hold one JSON value.  The protocol reads only the
//! top-level object's string-valued members; every other member value is
//! validated and then skipped.  Mirroring the tool driver that feeds us,
//! the decoder accepts arbitrary trailing text after the first complete
//! value, because the stream reader never demands that a line end there.
//!
//! The `spec_` functions below are the grammar itself; each takes the
//! line and a start index and gives the index after the recognized piece,
//! or `None` when the text does not match.  The executable functions are
//! proved to agree with them exactly.

use vstd::prelude::*;

verus! {

/// A member value of the top-level object: a string, retained; or any
/// other well-formed JSON value, skipped.
pub enum FieldValue {
    Text(String),
    Opaque,
}

/// Mathematical model of a [`FieldValue`].
pub enum FieldModel {
    Text(Seq<char>),
    Opaque,
}

impl View for FieldValue {
    type V = FieldModel;

    open spec fn view(&self) -> FieldModel {
        match self {
            FieldValue::Text(t) => FieldModel::Text(t@),
            FieldValue::Opaque => FieldModel::Opaque,
        }
    }
}

/// The models of a member list, keys paired with member values in line order.
pub open spec fn fields_model(fields: Seq<(String, FieldValue)>) -> Seq<(Seq<char>, FieldModel)> {
    Seq::new(fields.len(), |i: int| (fields[i].0@, fields[i].1@))
}

// ---------------------------------------------------------------------
// Characters
// ---------------------------------------------------------------------

pub open spec fn is_ws(c: char) -> bool {
    c == ' ' || c == '\t' || c == '\n' || c == '\r'
}

pub open spec fn is_digit(c: char) -> bool {
    '0' <= c && c <= '9'
}

/// The value of one hexadecimal digit, or `None` for any other character.
pub open spec fn hex_val(c: char) -> Option<u32> {
    if '0' <= c && c <= '9' {
        Some((c as u32 - '0' as u32) as u32)
    } else if 'a' <= c && c <= 'f' {
        Some((c as u32 - 'a' as u32 + 10) as u32)
    } else if 'A' <= c && c <= 'F' {
        Some((c as u32 - 'A' as u32 + 10) as u32)
    } else {
        None
    }
}

/// The first index at or after `i` that does not hold whitespace.
pub open spec fn spec_skip_ws(s: Seq<char>, i: int) -> int
    decreases s.len() - i,
{
    if i < s.len() && is_ws(s[i]) {
        spec_skip_ws(s, i + 1)
    } else {
        i
    }
}

pub proof fn lemma_skip_ws_bounds(s: Seq<char>, i: int)
    requires
        0 <= i <= s.len(),
    ensures
        i <= spec_skip_ws(s, i) <= s.len(),
    decreases s.len() - i,
{
    if i < s.len() && is_ws(s[i]) {
        lemma_skip_ws_bounds(s, i + 1);
    }
}

// ---------------------------------------------------------------------
// Strings
// ---------------------------------------------------------------------

/// The value of four hexadecimal digits starting at `i`.
pub open spec fn spec_hex4(s: Seq<char>, i: int) -> Option<u32> {
    if i + 4 <= s.len() {
        match (hex_val(s[i]), hex_val(s[i + 1]), hex_val(s[i + 2]), hex_val(s[i + 3])) {
            (Some(a), Some(b), Some(c), Some(d)) => Some(
                (a * 0x1000 + b * 0x100 + c * 0x10 + d) as u32,
            ),
            _ => None,
        }
    } else {
        None
    }
}

/// A `\u` escape, `i` standing on its first hexadecimal digit.  A high
/// surrogate must be followed by a whole low-surrogate escape; the pair
/// denotes one supplementary-plane character.  A lone surrogate does not
/// match.
pub open spec fn spec_unicode_escape(s: Seq<char>, i: int) -> Option<(char, int)> {
    match spec_hex4(s, i) {
        Some(u1) => {
            if u1 < 0xD800 || u1 >= 0xE000 {
                Some((u1 as char, i + 4))
            } else if u1 < 0xDC00 {
                if i + 10 <= s.len() && s[i + 4] == '\\' && s[i + 5] == 'u' {
                    match spec_hex4(s, i + 6) {
                        Some(u2) => if 0xDC00 <= u2 && u2 < 0xE000 {
                            Some(
                                (
                                    (0x10000 + (u1 - 0xD800) * 0x400 + (u2 - 0xDC00)) as u32 as char,
                                    i + 10,
                                ),
                            )
                        } else {
                            None
                        },
                        None => None,
                    }
                } else {
                    None
                }
            } else {
                None
            }
        },
        None => None,
    }
}

/// An escape sequence, `i` standing just after the backslash: the
/// character it denotes and the index after it.
pub open spec fn spec_escape(s: Seq<char>, i: int) -> Option<(char, int)> {
    if i < s.len() {
        let c = s[i];
        if c == '"' {
            Some(('"', i + 1))
        } else if c == '\\' {
            Some(('\\', i + 1))
        } else if c == '/' {
            Some(('/', i + 1))
        } else if c == 'b' {
            Some(('\u{8}', i + 1))
        } else if c == 'f' {
            Some(('\u{c}', i + 1))
        } else if c == 'n' {
            Some(('\n', i + 1))
        } else if c == 'r' {
            Some(('\r', i + 1))
        } else if c == 't' {
            Some(('\t', i + 1))
        } else if c == 'u' {
            spec_unicode_escape(s, i + 1)
        } else {
            None
        }
    } else {
        None
    }
}

/// The rest of a string literal, `i` standing just after the opening
/// quote or after a recognized piece: the denoted characters up to the
/// closing quote, and the index after that quote.  Raw control
/// characters do not match.
pub open spec fn spec_string_tail(s: Seq<char>, i: int) -> Option<(Seq<char>, int)>
    decreases s.len() - i,
{
    if i < s.len() {
        let c = s[i];
        if c == '"' {
            Some((Seq::empty(), i + 1))
        } else if c == '\\' {
            match spec_escape(s, i + 1) {
                Some((e, j)) => if i < j && j <= s.len() {
                    match spec_string_tail(s, j) {
                        Some((t, k)) => Some((seq![e] + t, k)),
                        None => None,
                    }
                } else {
                    // escapes always stand inside these bounds; the test
                    // only justifies the recursion
                    None
                },
                None => None,
            }
        } else if (c as u32) < 0x20 {
            None
        } else {
            match spec_string_tail(s, i + 1) {
                Some((t, k)) => Some((seq![c] + t, k)),
                None => None,
            }
        }
    } else {
        None
    }
}

pub proof fn lemma_string_tail_bounds(s: Seq<char>, i: int)
    requires
        0 <= i,
    ensures
        match spec_string_tail(s, i) {
            Some(p) => i < p.1 <= s.len(),
            None => true,
        },
    decreases s.len() - i,
{
    if i < s.len() {
        let c = s[i];
        if c == '\\' {
            match spec_escape(s, i + 1) {
                Some((e, j)) => if i < j && j <= s.len() {
                    lemma_string_tail_bounds(s, j);
                },
                None => {},
            }
        } else if c != '"' && (c as u32) >= 0x20 {
            lemma_string_tail_bounds(s, i + 1);
        }
    }
}

// ---------------------------------------------------------------------
// Numbers
// ---------------------------------------------------------------------

/// The first index at or after `i` that does not hold a decimal digit.
pub open spec fn spec_digits_end(s: Seq<char>, i: int) -> int
    decreases s.len() - i,
{
    if i < s.len() && is_digit(s[i]) {
        spec_digits_end(s, i + 1)
    } else {
        i
    }
}

pub proof fn lemma_digits_end_bounds(s: Seq<char>, i: int)
    requires
        0 <= i <= s.len(),
    ensures
        i <= spec_digits_end(s, i) <= s.len(),
    decreases s.len() - i,
{
    if i < s.len() && is_digit(s[i]) {
        lemma_digits_end_bounds(s, i + 1);
    }
}

/// The integer part of a number: `0`, or a nonzero digit followed by
/// any digits.  Leading zeros do not match.
pub open spec fn spec_int_end(s: Seq<char>, i: int) -> Option<int> {
    if i < s.len() {
        if s[i] == '0' {
            Some(i + 1)
        } else if is_digit(s[i]) {
            Some(spec_digits_end(s, i + 1))
        } else {
            None
        }
    } else {
        None
    }
}

/// An optional fraction part: a dot demands at least one digit.
pub open spec fn spec_frac_end(s: Seq<char>, i: int) -> Option<int> {
    if i < s.len() && s[i] == '.' {
        if i + 1 < s.len() && is_digit(s[i + 1]) {
            Some(spec_digits_end(s, i + 1))
        } else {
            None
        }
    } else {
        Some(i)
    }
}

/// An optional exponent part: `e` or `E`, an optional sign, then at
/// least one digit.
pub open spec fn spec_exp_end(s: Seq<char>, i: int) -> Option<int> {
    if i < s.len() && (s[i] == 'e' || s[i] == 'E') {
        let j = if i + 1 < s.len() && (s[i + 1] == '+' || s[i + 1] == '-') {
            i + 2
        } else {
            i + 1
        };
        if j < s.len() && is_digit(s[j]) {
            Some(spec_digits_end(s, j))
        } else {
            None
        }
    } else {
        Some(i)
    }
}

/// A whole number: optional minus sign, integer part, optional fraction
/// and exponent.
pub open spec fn spec_number_end(s: Seq<char>, i: int) -> Option<int> {
    let j = if i < s.len() && s[i] == '-' {
        i + 1
    } else {
        i
    };
    match spec_int_end(s, j) {
        Some(k) => match spec_frac_end(s, k) {
            Some(m) => spec_exp_end(s, m),
            None => None,
        },
        None => None,
    }
}

pub proof fn lemma_number_end_bounds(s: Seq<char>, i: int)
    requires
        0 <= i <= s.len(),
    ensures
        match spec_number_end(s, i) {
            Some(j) => i < j <= s.len(),
            None => true,
        },
{
    let j = if i < s.len() && s[i] == '-' {
        i + 1
    } else {
        i
    };
    if j < s.len() && s[j] != '0' && is_digit(s[j]) {
        lemma_digits_end_bounds(s, j + 1);
    }
    match spec_int_end(s, j) {
        Some(k) => {
            if k < s.len() && s[k] == '.' && k + 1 < s.len() && is_digit(s[k + 1]) {
                lemma_digits_end_bounds(s, k + 1);
            }
            match spec_frac_end(s, k) {
                Some(m) => {
                    if i <= m <= s.len() && m < s.len() && (s[m] == 'e' || s[m] == 'E') {
                        let p = if m + 1 < s.len() && (s[m + 1] == '+' || s[m + 1] == '-') {
                            m + 2
                        } else {
                            m + 1
                        };
                        if p < s.len() && is_digit(s[p]) {
                            lemma_digits_end_bounds(s, p);
                        }
                    }
                },
                None => {},
            }
        },
        None => {},
    }
}

// ---------------------------------------------------------------------
// Values
// ---------------------------------------------------------------------
//
// The index comparisons guarding the recursive calls below always hold
// (each recognized piece ends strictly after it begins); they stand in
// the definitions so that the recursion visibly shortens the rest of the
// line.  [`lemma_value_end_bounds`] discharges them for callers.

/// One JSON value starting exactly at `i`: the index after it.
pub open spec fn spec_value_end(s: Seq<char>, i: int) -> Option<int>
    decreases s.len() - i, 0int,
{
    if i < s.len() {
        let c = s[i];
        if c == '{' {
            let k = spec_skip_ws(s, i + 1);
            if i < k && k <= s.len() {
                if k < s.len() && s[k] == '}' {
                    Some(k + 1)
                } else {
                    spec_members_end(s, k)
                }
            } else {
                None
            }
        } else if c == '[' {
            let k = spec_skip_ws(s, i + 1);
            if i < k && k <= s.len() {
                if k < s.len() && s[k] == ']' {
                    Some(k + 1)
                } else {
                    spec_elements_end(s, k)
                }
            } else {
                None
            }
        } else if c == '"' {
            match spec_string_tail(s, i + 1) {
                Some((_t, j)) => Some(j),
                None => None,
            }
        } else if c == 't' {
            if i + 4 <= s.len() && s[i + 1] == 'r' && s[i + 2] == 'u' && s[i + 3] == 'e' {
                Some(i + 4)
            } else {
                None
            }
        } else if c == 'f' {
            if i + 5 <= s.len() && s[i + 1] == 'a' && s[i + 2] == 'l' && s[i + 3] == 's' && s[i + 4]
                == 'e' {
                Some(i + 5)
            } else {
                None
            }
        } else if c == 'n' {
            if i + 4 <= s.len() && s[i + 1] == 'u' && s[i + 2] == 'l' && s[i + 3] == 'l' {
                Some(i + 4)
            } else {
                None
            }
        } else if c == '-' || is_digit(c) {
            spec_number_end(s, i)
        } else {
            None
        }
    } else {
        None
    }
}

/// The members of an object and its closing brace, `i` standing on the
/// first member's opening quote: the index after the brace.
pub open spec fn spec_members_end(s: Seq<char>, i: int) -> Option<int>
    decreases s.len() - i, 1int,
{
    if i < s.len() && s[i] == '"' {
        match spec_string_tail(s, i + 1) {
            Some((_key, j)) => {
                let j2 = spec_skip_ws(s, j);
                if j2 < s.len() && s[j2] == ':' {
                    let j3 = spec_skip_ws(s, j2 + 1);
                    if i < j3 && j3 <= s.len() {
                        match spec_value_end(s, j3) {
                            Some(v) => {
                                let j4 = spec_skip_ws(s, v);
                                if j4 < s.len() && s[j4] == ',' {
                                    let j5 = spec_skip_ws(s, j4 + 1);
                                    if i < j5 && j5 <= s.len() {
                                        spec_members_end(s, j5)
                                    } else {
                                        None
                                    }
                                } else if j4 < s.len() && s[j4] == '}' {
                                    Some(j4 + 1)
                                } else {
                                    None
                                }
                            },
                            None => None,
                        }
                    } else {
                        None
                    }
                } else {
                    None
                }
            },
            None => None,
        }
    } else {
        None
    }
}

/// The elements of an array and its closing bracket, `i` standing on the
/// first element: the index after the bracket.
pub open spec fn spec_elements_end(s: Seq<char>, i: int) -> Option<int>
    decreases s.len() - i, 2int,
{
    match spec_value_end(s, i) {
        Some(v) => {
            let j = spec_skip_ws(s, v);
            if j < s.len() && s[j] == ',' {
                let j2 = spec_skip_ws(s, j + 1);
                if i < j2 && j2 <= s.len() {
                    spec_elements_end(s, j2)
                } else {
                    None
                }
            } else if j < s.len() && s[j] == ']' {
                Some(j + 1)
            } else {
                None
            }
        },
        None => None,
    }
}

pub proof fn lemma_value_end_bounds(s: Seq<char>, i: int)
    requires
        0 <= i,
    ensures
        match spec_value_end(s, i) {
            Some(j) => i < j <= s.len(),
            None => true,
        },
    decreases s.len() - i, 0int,
{
    if i < s.len() {
        let c = s[i];
        if c == '{' {
            let k = spec_skip_ws(s, i + 1);
            lemma_skip_ws_bounds(s, i + 1);
            if i < k && k <= s.len() && !(k < s.len() && s[k] == '}') {
                lemma_members_end_bounds(s, k);
            }
        } else if c == '[' {
            let k = spec_skip_ws(s, i + 1);
            lemma_skip_ws_bounds(s, i + 1);
            if i < k && k <= s.len() && !(k < s.len() && s[k] == ']') {
                lemma_elements_end_bounds(s, k);
            }
        } else if c == '"' {
            lemma_string_tail_bounds(s, i + 1);
        } else if c == '-' || is_digit(c) {
            lemma_number_end_bounds(s, i);
        }
    }
}

pub proof fn lemma_members_end_bounds(s: Seq<char>, i: int)
    requires
        0 <= i,
    ensures
        match spec_members_end(s, i) {
            Some(j) => i < j <= s.len(),
            None => true,
        },
    decreases s.len() - i, 1int,
{
    if i < s.len() && s[i] == '"' {
        lemma_string_tail_bounds(s, i + 1);
        match spec_string_tail(s, i + 1) {
            Some((_key, j)) => {
                let j2 = spec_skip_ws(s, j);
                lemma_skip_ws_bounds(s, j);
                if j2 < s.len() && s[j2] == ':' {
                    let j3 = spec_skip_ws(s, j2 + 1);
                    lemma_skip_ws_bounds(s, j2 + 1);
                    if i < j3 && j3 <= s.len() {
                        lemma_value_end_bounds(s, j3);
                        match spec_value_end(s, j3) {
                            Some(v) => {
                                let j4 = spec_skip_ws(s, v);
                                lemma_skip_ws_bounds(s, v);
                                if j4 < s.len() && s[j4] == ',' {
                                    let j5 = spec_skip_ws(s, j4 + 1);
                                    lemma_skip_ws_bounds(s, j4 + 1);
                                    if i < j5 && j5 <= s.len() {
                                        lemma_members_end_bounds(s, j5);
                                    }
                                }
                            },
                            None => {},
                        }
                    }
                }
            },
            None => {},
        }
    }
}

pub proof fn lemma_elements_end_bounds(s: Seq<char>, i: int)
    requires
        0 <= i,
    ensures
        match spec_elements_end(s, i) {
            Some(j) => i < j <= s.len(),
            None => true,
        },
    decreases s.len() - i, 2int,
{
    lemma_value_end_bounds(s, i);
    match spec_value_end(s, i) {
        Some(v) => {
            let j = spec_skip_ws(s, v);
            lemma_skip_ws_bounds(s, v);
            if j < s.len() && s[j] == ',' {
                let j2 = spec_skip_ws(s, j + 1);
                lemma_skip_ws_bounds(s, j + 1);
                if i < j2 && j2 <= s.len() {
                    lemma_elements_end_bounds(s, j2);
                }
            }
        },
        None => {},
    }
}

// ---------------------------------------------------------------------
// The top-level object
// ---------------------------------------------------------------------

/// One member value of the top-level object: retained when it is a
/// string, skipped otherwise.
pub open spec fn spec_field_value(s: Seq<char>, i: int) -> Option<(FieldModel, int)> {
    if i < s.len() && s[i] == '"' {
        match spec_string_tail(s, i + 1) {
            Some((t, j)) => Some((FieldModel::Text(t), j)),
            None => None,
        }
    } else {
        match spec_value_end(s, i) {
            Some(j) => Some((FieldModel::Opaque, j)),
            None => None,
        }
    }
}

/// The members of the top-level object and its closing brace, `i`
/// standing on the first member's opening quote: the key/value pairs in
/// line order, and the index after the brace.  It recognizes exactly
/// what [`spec_members_end`] does.
pub open spec fn spec_top_members(s: Seq<char>, i: int) -> Option<(Seq<(Seq<char>, FieldModel)>, int)>
    decreases s.len() - i,
{
    if i < s.len() && s[i] == '"' {
        match spec_string_tail(s, i + 1) {
            Some((key, j)) => {
                let j2 = spec_skip_ws(s, j);
                if j2 < s.len() && s[j2] == ':' {
                    let j3 = spec_skip_ws(s, j2 + 1);
                    if i < j3 && j3 <= s.len() {
                        match spec_field_value(s, j3) {
                            Some((fv, v)) => {
                                let j4 = spec_skip_ws(s, v);
                                if j4 < s.len() && s[j4] == ',' {
                                    let j5 = spec_skip_ws(s, j4 + 1);
                                    if i < j5 && j5 <= s.len() {
                                        match spec_top_members(s, j5) {
                                            Some((rest, end)) => Some(
                                                (seq![(key, fv)] + rest, end),
                                            ),
                                            None => None,
                                        }
                                    } else {
                                        None
                                    }
                                } else if j4 < s.len() && s[j4] == '}' {
                                    Some((seq![(key, fv)], j4 + 1))
                                } else {
                                    None
                                }
                            },
                            None => None,
                        }
                    } else {
                        None
                    }
                } else {
                    None
                }
            },
            None => None,
        }
    } else {
        None
    }
}

// ---------------------------------------------------------------------
// The executable decoder
// ---------------------------------------------------------------------

/// `r` names the same end index as `sp`, and both miss together.
pub open spec fn agrees_end(r: Option<usize>, sp: Option<int>, len: int) -> bool {
    match (sp, r) {
        (Some(j), Some(rj)) => rj as int == j && j <= len,
        (None, None) => true,
        _ => false,
    }
}

/// Relies on `String::push`: it appends the given character to the end
/// of the string.
#[verifier::external_body]
fn push_char(s: &mut String, c: char)
    ensures
        final(s)@ == old(s)@.push(c),
{
    s.push(c)
}

/// Relies on `char::from_u32`: it returns `Some` exactly for Unicode
/// scalar values, and the character it returns has the given value.
#[verifier::external_body]
fn char_of_u32(v: u32) -> (r: Option<char>)
    ensures
        r == (if vstd::utf8::is_scalar(v) {
            Some(v as char)
        } else {
            None::<char>
        }),
{
    char::from_u32(v)
}

fn ws_char(c: char) -> (b: bool)
    ensures
        b == is_ws(c),
{
    c == ' ' || c == '\t' || c == '\n' || c == '\r'
}

fn digit_char(c: char) -> (b: bool)
    ensures
        b == is_digit(c),
{
    '0' <= c && c <= '9'
}

fn hex_char(c: char) -> (r: Option<u32>)
    ensures
        r == hex_val(c),
{
    if '0' <= c && c <= '9' {
        Some(c as u32 - '0' as u32)
    } else if 'a' <= c && c <= 'f' {
        Some(c as u32 - 'a' as u32 + 10)
    } else if 'A' <= c && c <= 'F' {
        Some(c as u32 - 'A' as u32 + 10)
    } else {
        None
    }
}

fn skip_white(s: &Vec<char>, i: usize) -> (j: usize)
    requires
        i <= s.len(),
    ensures
        i <= j <= s.len(),
        j as int == spec_skip_ws(s@, i as int),
    decreases s@.len() - i,
{
    if i < s.len() && ws_char(s[i]) {
        skip_white(s, i + 1)
    } else {
        i
    }
}

fn hex4(s: &Vec<char>, i: usize) -> (r: Option<u32>)
    requires
        i <= s.len(),
    ensures
        r == spec_hex4(s@, i as int),
        r is Some ==> i + 4 <= s.len(),
{
    if s.len() - i >= 4 {
        match (hex_char(s[i]), hex_char(s[i + 1]), hex_char(s[i + 2]), hex_char(s[i + 3])) {
            (Some(a), Some(b), Some(c), Some(d)) => Some(a * 0x1000 + b * 0x100 + c * 0x10 + d),
            _ => None,
        }
    } else {
        None
    }
}

fn unicode_escape(s: &Vec<char>, i: usize) -> (r: Option<(char, usize)>)
    requires
        i <= s.len(),
    ensures
        ({
            match (spec_unicode_escape(s@, i as int), r) {
                (Some(p), Some(q)) => q.0 == p.0 && q.1 as int == p.1 && q.1 <= s.len(),
                (None, None) => true,
                _ => false,
            }
        }),
{
    match hex4(s, i) {
        Some(u1) => {
            if u1 < 0xD800 || u1 >= 0xE000 {
                let c = char_of_u32(u1).unwrap();
                Some((c, i + 4))
            } else if u1 < 0xDC00 {
                if s.len() - i >= 10 && s[i + 4] == '\\' && s[i + 5] == 'u' {
                    match hex4(s, i + 6) {
                        Some(u2) => if 0xDC00 <= u2 && u2 < 0xE000 {
                            let v = 0x10000 + (u1 - 0xD800) * 0x400 + (u2 - 0xDC00);
                            let c = char_of_u32(v).unwrap();
                            Some((c, i + 10))
                        } else {
                            None
                        },
                        None => None,
                    }
                } else {
                    None
                }
            } else {
                None
            }
        },
        None => None,
    }
}

fn escape_char(s: &Vec<char>, i: usize) -> (r: Option<(char, usize)>)
    requires
        i <= s.len(),
    ensures
        ({
            match (spec_escape(s@, i as int), r) {
                (Some(p), Some(q)) => q.0 == p.0 && q.1 as int == p.1 && i < q.1 <= s.len(),
                (None, None) => true,
                _ => false,
            }
        }),
{
    if i < s.len() {
        let c = s[i];
        if c == '"' {
            Some(('"', i + 1))
        } else if c == '\\' {
            Some(('\\', i + 1))
        } else if c == '/' {
            Some(('/', i + 1))
        } else if c == 'b' {
            Some(('\u{8}', i + 1))
        } else if c == 'f' {
            Some(('\u{c}', i + 1))
        } else if c == 'n' {
            Some(('\n', i + 1))
        } else if c == 'r' {
            Some(('\r', i + 1))
        } else if c == 't' {
            Some(('\t', i + 1))
        } else if c == 'u' {
            unicode_escape(s, i + 1)
        } else {
            None
        }
    } else {
        None
    }
}

/// Reads the rest of a string literal, appending the denoted characters
/// to `acc`; on a mismatch `acc` is left in an unspecified state and the
/// caller discards it.
fn string_tail(s: &Vec<char>, i: usize, acc: &mut String) -> (r: Option<usize>)
    requires
        i <= s.len(),
    ensures
        ({
            match (spec_string_tail(s@, i as int), r) {
                (Some(p), Some(rj)) => rj as int == p.1 && rj <= s.len() && final(acc)@ == old(acc)@
                    + p.0,
                (None, None) => true,
                _ => false,
            }
        }),
{
    let mut k = i;
    let ghost mid = Seq::<char>::empty();
    proof {
        assert(old(acc)@ + mid =~= old(acc)@);
    }
    loop
        invariant
            i <= k <= s.len(),
            acc@ == old(acc)@ + mid,
            (match spec_string_tail(s@, k as int) {
                Some(p) => spec_string_tail(s@, i as int) == Some((mid + p.0, p.1)),
                None => spec_string_tail(s@, i as int) is None,
            }),
        decreases s@.len() - k,
    {
        if k >= s.len() {
            return None;
        }
        let c = s[k];
        if c == '"' {
            proof {
                assert(mid + Seq::<char>::empty() =~= mid);
            }
            return Some(k + 1);
        } else if c == '\\' {
            match escape_char(s, k + 1) {
                Some((e, j)) => {
                    push_char(acc, e);
                    proof {
                        assert(acc@ =~= old(acc)@ + (mid + seq![e]));
                        assert(match spec_string_tail(s@, j as int) {
                            Some(p) => spec_string_tail(s@, k as int) == Some((seq![e] + p.0, p.1)),
                            None => spec_string_tail(s@, k as int) is None,
                        });
                        assert(match spec_string_tail(s@, j as int) {
                            Some(p) => (mid + (seq![e] + p.0)) =~= ((mid + seq![e]) + p.0),
                            None => true,
                        });
                        mid = mid + seq![e];
                    }
                    k = j;
                },
                None => {
                    return None;
                },
            }
        } else if (c as u32) < 0x20 {
            return None;
        } else {
            push_char(acc, c);
            proof {
                assert(acc@ =~= old(acc)@ + (mid + seq![c]));
                assert(match spec_string_tail(s@, k as int + 1) {
                    Some(p) => (mid + (seq![c] + p.0)) =~= ((mid + seq![c]) + p.0),
                    None => true,
                });
                mid = mid + seq![c];
            }
            k = k + 1;
        }
    }
}

/// The end of a string literal whose characters are not needed.
pub open spec fn tail_end(s: Seq<char>, i: int) -> Option<int> {
    match spec_string_tail(s, i) {
        Some(p) => Some(p.1),
        None => None,
    }
}

fn string_end(s: &Vec<char>, i: usize) -> (r: Option<usize>)
    requires
        i <= s.len(),
    ensures
        agrees_end(r, tail_end(s@, i as int), s@.len() as int),
{
    let mut k = i;
    loop
        invariant
            i <= k <= s.len(),
            tail_end(s@, i as int) == tail_end(s@, k as int),
        decreases s@.len() - k,
    {
        if k >= s.len() {
            return None;
        }
        let c = s[k];
        if c == '"' {
            return Some(k + 1);
        } else if c == '\\' {
            match escape_char(s, k + 1) {
                Some((_e, j)) => {
                    k = j;
                },
                None => {
                    return None;
                },
            }
        } else if (c as u32) < 0x20 {
            return None;
        } else {
            k = k + 1;
        }
    }
}

fn digits_end(s: &Vec<char>, i: usize) -> (j: usize)
    requires
        i <= s.len(),
    ensures
        i <= j <= s.len(),
        j as int == spec_digits_end(s@, i as int),
    decreases s@.len() - i,
{
    if i < s.len() && digit_char(s[i]) {
        digits_end(s, i + 1)
    } else {
        i
    }
}

fn number_end(s: &Vec<char>, i: usize) -> (r: Option<usize>)
    requires
        i <= s.len(),
    ensures
        agrees_end(r, spec_number_end(s@, i as int), s@.len() as int),
{
    let j = if i < s.len() && s[i] == '-' {
        i + 1
    } else {
        i
    };
    let k = if j < s.len() && s[j] == '0' {
        j + 1
    } else if j < s.len() && digit_char(s[j]) {
        digits_end(s, j + 1)
    } else {
        return None;
    };
    let m = if k < s.len() && s[k] == '.' {
        if k + 1 < s.len() && digit_char(s[k + 1]) {
            digits_end(s, k + 1)
        } else {
            return None;
        }
    } else {
        k
    };
    if m < s.len() && (s[m] == 'e' || s[m] == 'E') {
        let p = if m + 1 < s.len() && (s[m + 1] == '+' || s[m + 1] == '-') {
            m + 2
        } else {
            m + 1
        };
        if p < s.len() && digit_char(s[p]) {
            Some(digits_end(s, p))
        } else {
            None
        }
    } else {
        Some(m)
    }
}

fn value_end(s: &Vec<char>, i: usize) -> (r: Option<usize>)
    requires
        i <= s.len(),
    ensures
        agrees_end(r, spec_value_end(s@, i as int), s@.len() as int),
    decreases s@.len() - i, 0int,
{
    if i >= s.len() {
        return None;
    }
    let c = s[i];
    if c == '{' {
        let k = skip_white(s, i + 1);
        if k < s.len() && s[k] == '}' {
            Some(k + 1)
        } else {
            members_end(s, k)
        }
    } else if c == '[' {
        let k = skip_white(s, i + 1);
        if k < s.len() && s[k] == ']' {
            Some(k + 1)
        } else {
            elements_end(s, k)
        }
    } else if c == '"' {
        string_end(s, i + 1)
    } else if c == 't' {
        if s.len() - i >= 4 && s[i + 1] == 'r' && s[i + 2] == 'u' && s[i + 3] == 'e' {
            Some(i + 4)
        } else {
            None
        }
    } else if c == 'f' {
        if s.len() - i >= 5 && s[i + 1] == 'a' && s[i + 2] == 'l' && s[i + 3] == 's' && s[i + 4]
            == 'e' {
            Some(i + 5)
        } else {
            None
        }
    } else if c == 'n' {
        if s.len() - i >= 4 && s[i + 1] == 'u' && s[i + 2] == 'l' && s[i + 3] == 'l' {
            Some(i + 4)
        } else {
            None
        }
    } else if c == '-' || digit_char(c) {
        number_end(s, i)
    } else {
        None
    }
}

fn members_end(s: &Vec<char>, i: usize) -> (r: Option<usize>)
    requires
        i <= s.len(),
    ensures
        agrees_end(r, spec_members_end(s@, i as int), s@.len() as int),
    decreases s@.len() - i, 1int,
{
    if i < s.len() && s[i] == '"' {
        match string_end(s, i + 1) {
            Some(j) => {
                proof {
                    lemma_string_tail_bounds(s@, i as int + 1);
                }
                let j2 = skip_white(s, j);
                if j2 < s.len() && s[j2] == ':' {
                    let j3 = skip_white(s, j2 + 1);
                    match value_end(s, j3) {
                        Some(v) => {
                            proof {
                                lemma_value_end_bounds(s@, j3 as int);
                            }
                            let j4 = skip_white(s, v);
                            if j4 < s.len() && s[j4] == ',' {
                                let j5 = skip_white(s, j4 + 1);
                                members_end(s, j5)
                            } else if j4 < s.len() && s[j4] == '}' {
                                Some(j4 + 1)
                            } else {
                                None
                            }
                        },
                        None => None,
                    }
                } else {
                    None
                }
            },
            None => None,
        }
    } else {
        None
    }
}

fn elements_end(s: &Vec<char>, i: usize) -> (r: Option<usize>)
    requires
        i <= s.len(),
    ensures
        agrees_end(r, spec_elements_end(s@, i as int), s@.len() as int),
    decreases s@.len() - i, 2int,
{
    match value_end(s, i) {
        Some(v) => {
            proof {
                lemma_value_end_bounds(s@, i as int);
            }
            let j = skip_white(s, v);
            if j < s.len() && s[j] == ',' {
                let j2 = skip_white(s, j + 1);
                elements_end(s, j2)
            } else if j < s.len() && s[j] == ']' {
                Some(j + 1)
            } else {
                None
            }
        },
        None => None,
    }
}

fn field_value(s: &Vec<char>, i: usize) -> (r: Option<(FieldValue, usize)>)
    requires
        i <= s.len(),
    ensures
        ({
            match (spec_field_value(s@, i as int), r) {
                (Some(p), Some(q)) => q.0@ == p.0 && q.1 as int == p.1 && q.1 <= s.len(),
                (None, None) => true,
                _ => false,
            }
        }),
{
    if i < s.len() && s[i] == '"' {
        let mut text = String::new();
        match string_tail(s, i + 1, &mut text) {
            Some(j) => {
                proof {
                    assert(Seq::<char>::empty() + spec_string_tail(s@, i as int + 1)->Some_0.0
                        =~= spec_string_tail(s@, i as int + 1)->Some_0.0);
                }
                Some((FieldValue::Text(text), j))
            },
            None => None,
        }
    } else {
        match value_end(s, i) {
            Some(j) => Some((FieldValue::Opaque, j)),
            None => None,
        }
    }
}

fn top_members(s: &Vec<char>, i: usize, acc: &mut Vec<(String, FieldValue)>) -> (r: Option<usize>)
    requires
        i <= s.len(),
    ensures
        ({
            match (spec_top_members(s@, i as int), r) {
                (Some(p), Some(rj)) => rj as int == p.1 && rj <= s.len() && fields_model(
                    final(acc)@,
                ) == fields_model(old(acc)@) + p.0,
                (None, None) => true,
                _ => false,
            }
        }),
    decreases s@.len() - i,
{
    if i < s.len() && s[i] == '"' {
        let mut key = String::new();
        match string_tail(s, i + 1, &mut key) {
            Some(j) => {
                proof {
                    assert(Seq::<char>::empty() + spec_string_tail(s@, i as int + 1)->Some_0.0
                        =~= spec_string_tail(s@, i as int + 1)->Some_0.0);
                }
                proof {
                    lemma_string_tail_bounds(s@, i as int + 1);
                }
                let j2 = skip_white(s, j);
                if j2 < s.len() && s[j2] == ':' {
                    let j3 = skip_white(s, j2 + 1);
                    match field_value(s, j3) {
                        Some((fv, v)) => {
                            proof {
                                lemma_string_tail_bounds(s@, j3 as int + 1);
                                lemma_value_end_bounds(s@, j3 as int);
                            }
                            let j4 = skip_white(s, v);
                            if j4 < s.len() && s[j4] == ',' {
                                let j5 = skip_white(s, j4 + 1);
                                let ghost pair = (key@, fv@);
                                let ghost before = acc@;
                                acc.push((key, fv));
                                proof {
                                    assert(fields_model(acc@) =~= fields_model(before)
                                        + seq![pair]);
                                }
                                match top_members(s, j5, acc) {
                                    Some(end) => {
                                        proof {
                                            assert(match spec_top_members(s@, j5 as int) {
                                                Some(p) => (fields_model(before) + seq![pair])
                                                    + p.0 =~= fields_model(before) + (seq![pair]
                                                    + p.0),
                                                None => true,
                                            });
                                        }
                                        Some(end)
                                    },
                                    None => None,
                                }
                            } else if j4 < s.len() && s[j4] == '}' {
                                let ghost pair = (key@, fv@);
                                let ghost before = acc@;
                                acc.push((key, fv));
                                proof {
                                    assert(fields_model(acc@) =~= fields_model(before)
                                        + seq![pair]);
                                }
                                Some(j4 + 1)
                            } else {
                                None
                            }
                        },
                        None => None,
                    }
                } else {
                    None
                }
            },
            None => None,
        }
    } else {
        None
    }
}

/// Decodes the one object a line may hold into its key/value pairs, in
/// line order.  `None` when the line does not start with a well-formed
/// object; trailing text after the object is ignored.
pub fn parse_line_fields(s: &Vec<char>) -> (r: Option<Vec<(String, FieldValue)>>)
    ensures
        ({
            match (spec_line_fields(s@), r) {
                (Some(fs), Some(v)) => fields_model(v@) == fs,
                (None, None) => true,
                _ => false,
            }
        }),
{
    let i = skip_white(s, 0);
    if i < s.len() && s[i] == '{' {
        let k = skip_white(s, i + 1);
        if k < s.len() && s[k] == '}' {
            let v: Vec<(String, FieldValue)> = Vec::new();
            proof {
                assert(fields_model(v@) =~= Seq::<(Seq<char>, FieldModel)>::empty());
            }
            Some(v)
        } else {
            let mut acc: Vec<(String, FieldValue)> = Vec::new();
            match top_members(s, k, &mut acc) {
                Some(_end) => {
                    proof {
                        assert(match spec_top_members(s@, k as int) {
                            Some(p) => fields_model(Seq::<(String, FieldValue)>::empty()) + p.0
                                =~= p.0,
                            None => true,
                        });
                    }
                    Some(acc)
                },
                None => None,
            }
        }
    } else {
        None
    }
}

/// The key/value pairs of the one object a line may hold.  Leading
/// whitespace is skipped; anything after the object's closing brace is
/// ignored.  `None` when the line does not start with a well-formed
/// object.
pub open spec fn spec_line_fields(s: Seq<char>) -> Option<Seq<(Seq<char>, FieldModel)>> {
    let i = spec_skip_ws(s, 0);
    if 0 <= i && i < s.len() && s[i] == '{' {
        let k = spec_skip_ws(s, i + 1);
        if k < s.len() && s[k] == '}' {
            Some(Seq::empty())
        } else if i < k && k <= s.len() {
            match spec_top_members(s, k) {
                Some((fs, _end)) => Some(fs),
                None => None,
            }
        } else {
            None
        }
    } else {
        None
    }
}

} // verus!
