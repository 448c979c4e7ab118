//! A parser for the data-notation subset the store accepts: integers,
//! booleans, strings, symbols, keywords, vectors and maps.

use vstd::prelude::*;
use crate::types::{StoreError, Keyword};

verus! {

/// A parsed data-notation value.
#[derive(Debug, PartialEq, Eq)]
pub enum Value {
    Integer(i64),
    Boolean(bool),
    Text(String),
    PlainKeyword(String),
    NamespacedKeyword(Keyword),
    PlainSymbol(String),
    Vector(Vec<Value>),
    MapForm(Vec<(Value, Value)>),
}

/// Relies on `str::chars` and `Iterator::collect`: yields exactly the
/// characters of `s`, in order.
#[verifier::external_body]
pub(crate) fn chars_of(s: &str) -> (v: Vec<char>)
    ensures
        v@ == s@,
{
    s.chars().collect()
}

/// Relies on `String`'s `FromIterator`: builds the string holding exactly
/// the characters of `v`, in order.
#[verifier::external_body]
pub(crate) fn string_from_chars(v: &Vec<char>) -> (s: String)
    ensures
        s@ == v@,
{
    v.iter().collect()
}

/// Whitespace: blanks, line breaks and the comma.
fn is_ws(c: char) -> bool {
    let u = c as u32;
    u == 32 || u == 9 || u == 10 || u == 13 || u == 44
}

/// An ASCII decimal digit.
fn is_digit(c: char) -> (r: bool)
    ensures
        r == (48 <= c as u32 <= 57),
{
    let u = c as u32;
    48 <= u && u <= 57
}

/// A character that may stand in a symbol or keyword, `/` included.
fn is_sym_char(c: char) -> bool {
    let u = c as u32;
    (48 <= u && u <= 57) || (65 <= u && u <= 90) || (97 <= u && u <= 122) || u == 46  /* . */
        || u == 42  /* * */
        || u == 43  /* + */
        || u == 33  /* ! */
        || u == 45  /* - */
        || u == 95  /* _ */
        || u == 63  /* ? */
        || u == 36  /* $ */
        || u == 37  /* % */
        || u == 38  /* & */
        || u == 61  /* = */
        || u == 60  /* < */
        || u == 62  /* > */
        || u == 47  /* / */
}

/// Advance past whitespace.
fn skip_ws(chars: &Vec<char>, pos: usize) -> (r: usize)
    requires
        pos <= chars@.len(),
    ensures
        pos <= r <= chars@.len(),
{
    let mut p = pos;
    while p < chars.len() && is_ws(chars[p])
        invariant
            pos <= p <= chars@.len(),
        decreases chars@.len() - p,
    {
        p = p + 1;
    }
    p
}

/// Read the run of symbol characters starting at `pos`.
fn read_sym_run(chars: &Vec<char>, pos: usize) -> (r: (Vec<char>, usize))
    requires
        pos <= chars@.len(),
    ensures
        pos <= r.1 <= chars@.len(),
        r.0@.len() == r.1 - pos,
{
    let mut p = pos;
    let mut out: Vec<char> = Vec::new();
    while p < chars.len() && is_sym_char(chars[p])
        invariant
            pos <= p <= chars@.len(),
            out@.len() == p - pos,
        decreases chars@.len() - p,
    {
        out.push(chars[p]);
        p = p + 1;
    }
    (out, p)
}

/// Parse one value starting at `pos` (leading whitespace allowed).
/// On success the returned cursor lies strictly past `pos`.
pub fn parse_value(chars: &Vec<char>, pos: usize) -> (r: Result<(Value, usize), StoreError>)
    requires
        pos <= chars@.len(),
    ensures
        match r {
            Ok(v) => pos < v.1 <= chars@.len(),
            Err(e) => e matches StoreError::EdnParseError(_),
        },
    decreases chars@.len() - pos,
{
    let p = skip_ws(chars, pos);
    if p >= chars.len() {
        return Err(StoreError::EdnParseError(p));
    }
    let c = chars[p];
    let u = c as u32;
    if u == 91 {  // '['
        let mut cur = p + 1;
        let mut items: Vec<Value> = Vec::new();
        loop
            invariant
                pos < cur <= chars@.len(),
            decreases chars@.len() - cur,
        {
            let q = skip_ws(chars, cur);
            if q >= chars.len() {
                return Err(StoreError::EdnParseError(q));
            }
            if chars[q] as u32 == 93 {  // ']'
                return Ok((Value::Vector(items), q + 1));
            }
            match parse_value(chars, q) {
                Ok((v, next)) => {
                    items.push(v);
                    cur = next;
                },
                Err(e) => {
                    return Err(e);
                },
            }
        }
    } else if u == 123 {  // '{'
        let mut cur = p + 1;
        let mut pairs: Vec<(Value, Value)> = Vec::new();
        loop
            invariant
                pos < cur <= chars@.len(),
            decreases chars@.len() - cur,
        {
            let q = skip_ws(chars, cur);
            if q >= chars.len() {
                return Err(StoreError::EdnParseError(q));
            }
            if chars[q] as u32 == 125 {  // '}'
                return Ok((Value::MapForm(pairs), q + 1));
            }
            let (k, after_k) = match parse_value(chars, q) {
                Ok(kv) => kv,
                Err(e) => {
                    return Err(e);
                },
            };
            let (v, after_v) = match parse_value(chars, after_k) {
                Ok(vv) => vv,
                Err(e) => {
                    return Err(e);
                },
            };
            pairs.push((k, v));
            cur = after_v;
        }
    } else if u == 34 {  // '"'
        let mut cur = p + 1;
        let mut text: Vec<char> = Vec::new();
        loop
            invariant
                pos < cur <= chars@.len(),
            decreases chars@.len() - cur,
        {
            if cur >= chars.len() {
                return Err(StoreError::EdnParseError(cur));
            }
            let d = chars[cur];
            let du = d as u32;
            if du == 34 {
                return Ok((Value::Text(string_from_chars(&text)), cur + 1));
            }
            if du == 92 {  // '\\'
                if cur + 1 >= chars.len() {
                    return Err(StoreError::EdnParseError(cur));
                }
                let esc = chars[cur + 1];
                let eu = esc as u32;
                if eu == 34 {
                    text.push('"');
                } else if eu == 92 {
                    text.push('\\');
                } else if eu == 110 {
                    text.push('\n');
                } else if eu == 116 {
                    text.push('\t');
                } else {
                    return Err(StoreError::EdnParseError(cur));
                }
                cur = cur + 2;
            } else {
                text.push(d);
                cur = cur + 1;
            }
        }
    } else if u == 58 {  // ':'
        let (run, end) = read_sym_run(chars, p + 1);
        if run.len() == 0 {
            return Err(StoreError::EdnParseError(p));
        }
        // Split at the first '/' into namespace and name.
        let mut slash: usize = run.len();
        let mut i: usize = 0;
        while i < run.len()
            invariant
                i <= run@.len(),
                slash == run@.len() || slash < i,
            decreases run@.len() - i,
        {
            if run[i] as u32 == 47 && slash == run.len() {
                slash = i;
            }
            i = i + 1;
        }
        if slash == run.len() {
            return Ok((Value::PlainKeyword(string_from_chars(&run)), end));
        }
        if slash == 0 || slash + 1 >= run.len() {
            return Err(StoreError::EdnParseError(p));
        }
        let mut ns: Vec<char> = Vec::new();
        let mut j: usize = 0;
        while j < slash
            invariant
                j <= slash,
                slash < run@.len(),
            decreases slash - j,
        {
            ns.push(run[j]);
            j = j + 1;
        }
        let mut nm: Vec<char> = Vec::new();
        let mut k: usize = slash + 1;
        while k < run.len()
            invariant
                slash < k <= run@.len(),
            decreases run@.len() - k,
        {
            nm.push(run[k]);
            k = k + 1;
        }
        let kw = Keyword { namespace: string_from_chars(&ns), name: string_from_chars(&nm) };
        return Ok((Value::NamespacedKeyword(kw), end));
    } else if is_digit(c) || (u == 45 && p + 1 < chars.len() && is_digit(chars[p + 1])) {
        let negative = u == 45;
        let mut cur = if negative {
            p + 1
        } else {
            p
        };
        let mut acc: i64 = 0;
        let mut any = false;
        while cur < chars.len() && is_digit(chars[cur])
            invariant
                pos <= cur <= chars@.len(),
                0 <= acc,
                any ==> pos < cur,
            decreases chars@.len() - cur,
        {
            let d = (chars[cur] as u32 - 48) as i64;
            assert(0 <= d <= 9);
            let lim = (9223372036854775807i64 - d) / 10;
            if acc > lim {
                return Err(StoreError::EdnParseError(cur));
            }
            acc = acc * 10 + d;
            any = true;
            cur = cur + 1;
        }
        if !any {
            return Err(StoreError::EdnParseError(p));
        }
        let value = if negative {
            -acc
        } else {
            acc
        };
        return Ok((Value::Integer(value), cur));
    } else if is_sym_char(c) {
        let (run, end) = read_sym_run(chars, p);
        if run.len() == 0 {
            return Err(StoreError::EdnParseError(p));
        }
        let s = string_from_chars(&run);
        if s == String::from_str("true") {
            return Ok((Value::Boolean(true), end));
        }
        if s == String::from_str("false") {
            return Ok((Value::Boolean(false), end));
        }
        return Ok((Value::PlainSymbol(s), end));
    } else {
        return Err(StoreError::EdnParseError(p));
    }
}

/// Parse a complete data-notation text into one value.
///
/// Trailing input that is not whitespace is malformed, as is an empty
/// text; every failure is an `EdnParseError`.
pub fn parse(s: &str) -> (r: Result<Value, StoreError>)
    ensures
        r matches Err(e) ==> e matches StoreError::EdnParseError(_),
{
    let chars = chars_of(s);
    match parse_value(&chars, 0) {
        Ok((v, end)) => {
            let rest = skip_ws(&chars, end);
            if rest != chars.len() {
                Err(StoreError::EdnParseError(rest))
            } else {
                Ok(v)
            }
        },
        Err(e) => Err(e),
    }
}

} // verus!
