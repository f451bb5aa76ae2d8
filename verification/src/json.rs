//! JSON text for the messages the browser sends to its chrome page.
//!
//! Objects are written with their keys in ascending order, as serde_json's
//! default (`BTreeMap`-backed) map writes them; strings are quoted by serde_json.

use vstd::prelude::*;
use crate::text::{decimal, push_decimal};

verus! {

pub open spec fn hex_lower(d: nat) -> char
    recommends
        d < 16,
{
    if d < 10 {
        (('0' as u8) + d) as u8 as char
    } else {
        (('a' as u8) + (d - 10)) as u8 as char
    }
}

/// How serde_json writes one character inside a JSON string.
pub open spec fn json_escape_char(c: char) -> Seq<char> {
    if c == '"' {
        seq!['\\', '"']
    } else if c == '\\' {
        seq!['\\', '\\']
    } else if c == '\u{8}' {
        seq!['\\', 'b']
    } else if c == '\u{c}' {
        seq!['\\', 'f']
    } else if c == '\n' {
        seq!['\\', 'n']
    } else if c == '\r' {
        seq!['\\', 'r']
    } else if c == '\t' {
        seq!['\\', 't']
    } else if (c as u32) < 0x20 {
        seq!['\\', 'u', '0', '0', hex_lower((c as nat) / 16), hex_lower((c as nat) % 16)]
    } else {
        seq![c]
    }
}

pub open spec fn json_escape(s: Seq<char>) -> Seq<char>
    decreases s.len(),
{
    if s.len() == 0 {
        seq![]
    } else {
        json_escape_char(s[0]) + json_escape(s.drop_first())
    }
}

/// A JSON string literal holding `s`.
pub open spec fn json_string(s: Seq<char>) -> Seq<char> {
    seq!['"'] + json_escape(s) + seq!['"']
}

/// serde_json's serialization of a string value
/// (`serde_json::Value::String(..).to_string()`). The contract restates the
/// escaping that the crate's serializer applies (its `ESCAPE` table): quote and
/// backslash are escaped, the C0 controls become `\b \f \n \r \t` or `\u00xx`,
/// every other character is written as it is.
#[verifier::external_body]
fn json_quote(s: &str) -> (r: String)
    ensures
        r@ == json_string(s@),
{
    serde_json::Value::String(s.to_string()).to_string()
}

/// Appends the JSON string literal for `s`.
pub fn push_json_string(out: &mut String, s: &str)
    ensures
        final(out)@ == old(out)@ + json_string(s@),
{
    let q = json_quote(s);
    out.append(q.as_str());
}

pub open spec fn json_bool(b: bool) -> Seq<char> {
    if b {
        "true"@
    } else {
        "false"@
    }
}

pub fn push_json_bool(out: &mut String, b: bool)
    ensures
        final(out)@ == old(out)@ + json_bool(b),
{
    if b {
        out.append("true");
    } else {
        out.append("false");
    }
}

pub fn push_json_number(out: &mut String, n: u64)
    ensures
        final(out)@ == old(out)@ + decimal(n as nat),
{
    push_decimal(out, n);
}

pub open spec fn json_opt_number(n: Option<u64>) -> Seq<char> {
    match n {
        Some(v) => decimal(v as nat),
        None => "null"@,
    }
}

pub fn push_json_opt_number(out: &mut String, n: Option<u64>)
    ensures
        final(out)@ == old(out)@ + json_opt_number(n),
{
    match n {
        Some(v) => push_decimal(out, v),
        None => out.append("null"),
    }
}

} // verus!
