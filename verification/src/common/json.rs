//! Compact JSON text, written the way `serde_json` writes it: strings with
//! its escapes, objects with their keys in sorted order and no spaces.
use vstd::prelude::*;
use crate::text::{chars_of, push_char, owned, decimal, u64_to_string};

verus! {

/// Lower-case hexadecimal digit of `d < 16`.
pub open spec fn hex_digit(d: nat) -> char {
    if d < 10 { ((48 + d) as u32) as char } else { ((87 + d) as u32) as char }
}

/// How one character is written inside a JSON string.
pub open spec fn escape_char(c: char) -> Seq<char> {
    if c == '"' {
        seq!['\\', '"']
    } else if c == '\\' {
        seq!['\\', '\\']
    } else if c == '\n' {
        seq!['\\', 'n']
    } else if c == '\r' {
        seq!['\\', 'r']
    } else if c == '\t' {
        seq!['\\', 't']
    } else if (c as u32) == 8 {
        seq!['\\', 'b']
    } else if (c as u32) == 12 {
        seq!['\\', 'f']
    } else if (c as u32) < 32 {
        seq!['\\', 'u', '0', '0', hex_digit((c as u32 / 16) as nat), hex_digit((c as u32 % 16) as nat)]
    } else {
        seq![c]
    }
}

/// The escaped body of a JSON string.
pub open spec fn escape_json(s: Seq<char>) -> Seq<char>
    decreases s.len(),
{
    if s.len() == 0 { Seq::empty() } else { escape_json(s.drop_last()) + escape_char(s.last()) }
}

/// A JSON string literal.
pub open spec fn json_str(s: Seq<char>) -> Seq<char> {
    seq!['"'] + escape_json(s) + seq!['"']
}

/// A JSON boolean.
pub open spec fn json_bool(b: bool) -> Seq<char> {
    if b { "true"@ } else { "false"@ }
}

/// One `"key":value` member.
pub open spec fn member(k: Seq<char>, v: Seq<char>) -> Seq<char> {
    json_str(k) + seq![':'] + v
}

/// The members joined by commas.
pub open spec fn members(ms: Seq<(Seq<char>, Seq<char>)>) -> Seq<char>
    decreases ms.len(),
{
    if ms.len() == 0 {
        Seq::empty()
    } else if ms.len() == 1 {
        member(ms[0].0, ms[0].1)
    } else {
        members(ms.drop_last()) + seq![','] + member(ms.last().0, ms.last().1)
    }
}

/// A JSON object with the given members, in the given order.
pub open spec fn json_object(ms: Seq<(Seq<char>, Seq<char>)>) -> Seq<char> {
    seq!['{'] + members(ms) + seq!['}']
}

fn hex_char(d: u32) -> (c: char)
    requires
        d < 16,
    ensures
        c == hex_digit(d as nat),
{
    if d < 10 {
        let b: u8 = (48 + d) as u8;
        b as char
    } else {
        let b: u8 = (87 + d) as u8;
        b as char
    }
}

/// Append the escaped form of `c`.
fn push_escaped(out: &mut String, c: char)
    ensures
        final(out)@ == old(out)@ + escape_char(c),
{
    let u = c as u32;
    if c == '"' || c == '\\' {
        push_char(out, '\\');
        push_char(out, c);
    } else if c == '\n' {
        push_char(out, '\\');
        push_char(out, 'n');
    } else if c == '\r' {
        push_char(out, '\\');
        push_char(out, 'r');
    } else if c == '\t' {
        push_char(out, '\\');
        push_char(out, 't');
    } else if u == 8 {
        push_char(out, '\\');
        push_char(out, 'b');
    } else if u == 12 {
        push_char(out, '\\');
        push_char(out, 'f');
    } else if u < 32 {
        push_char(out, '\\');
        push_char(out, 'u');
        push_char(out, '0');
        push_char(out, '0');
        push_char(out, hex_char(u / 16));
        push_char(out, hex_char(u % 16));
    } else {
        push_char(out, c);
    }
    assert(final(out)@ =~= old(out)@ + escape_char(c));
}

/// `s` as a JSON string literal.
pub fn json_string(s: &str) -> (r: String)
    ensures
        r@ == json_str(s@),
{
    let v = chars_of(s);
    let mut out = String::new();
    push_char(&mut out, '"');
    let mut i: usize = 0;
    while i < v.len()
        invariant
            v@ == s@,
            i <= v@.len(),
            out@ == seq!['"'] + escape_json(v@.take(i as int)),
        decreases v@.len() - i,
    {
        assert(v@.take(i + 1).drop_last() =~= v@.take(i as int));
        push_escaped(&mut out, v[i]);
        i = i + 1;
        assert(out@ =~= seq!['"'] + escape_json(v@.take(i as int)));
    }
    assert(v@.take(v@.len() as int) =~= v@);
    push_char(&mut out, '"');
    assert(out@ =~= json_str(s@));
    out
}

/// `b` as JSON.
pub fn json_bool_text(b: bool) -> (r: &'static str)
    ensures
        r@ == json_bool(b),
{
    proof {
        reveal_strlit("true");
        reveal_strlit("false");
    }
    if b { "true" } else { "false" }
}

/// A JSON object from members whose values are JSON text already. The keys
/// are written as given: callers pass them in sorted order.
pub fn json_object_of(keys: &[&str], values: &[String]) -> (r: String)
    requires
        keys@.len() == values@.len(),
    ensures
        r@ == json_object(Seq::new(keys@.len(), |i: int| (keys@[i]@, values@[i]@))),
{
    let ghost ms = Seq::new(keys@.len(), |i: int| (keys@[i]@, values@[i]@));
    let mut out = String::new();
    push_char(&mut out, '{');
    let mut i: usize = 0;
    while i < keys.len()
        invariant
            keys@.len() == values@.len(),
            ms == Seq::new(keys@.len(), |i: int| (keys@[i]@, values@[i]@)),
            i <= keys@.len(),
            out@ == seq!['{'] + members(ms.take(i as int)),
        decreases keys@.len() - i,
    {
        let ghost before = out@;
        assert(ms.take(i + 1).drop_last() =~= ms.take(i as int));
        if i > 0 {
            push_char(&mut out, ',');
        }
        let k = json_string(keys[i]);
        out.append(k.as_str());
        push_char(&mut out, ':');
        out.append(values[i].as_str());
        i = i + 1;
        assert(out@ =~= seq!['{'] + members(ms.take(i as int)));
    }
    assert(ms.take(keys@.len() as int) =~= ms);
    push_char(&mut out, '}');
    assert(out@ =~= json_object(ms));
    out
}

/// `n` as a JSON number.
pub fn json_number(n: u64) -> (r: String)
    ensures
        r@ == decimal(n as nat),
{
    u64_to_string(n)
}

/// What `serde_json` writes back for JSON text it parsed: the compact form.
/// `None` where the text is not JSON.
pub uninterp spec fn spec_json_normalize(text: Seq<char>) -> Option<Seq<char>>;

/// Parses `text` with `serde_json::from_str::<serde_json::Value>` and writes
/// the value back with `to_string`. The result is named, not described: it
/// depends on the text alone.
#[verifier::external_body]
pub(crate) fn json_normalize(text: &str) -> (r: Option<String>)
    ensures
        match r {
            Some(s) => spec_json_normalize(text@) == Some(s@),
            None => spec_json_normalize(text@) is None,
        },
{
    match serde_json::from_str::<serde_json::Value>(text) {
        Ok(v) => Some(v.to_string()),
        Err(_) => None,
    }
}

/// What `format!("{:?}", s)` writes for a string: a quoted, escaped literal.
pub uninterp spec fn spec_debug_str(s: Seq<char>) -> Seq<char>;

/// The `Debug` form of a string (`format!("{:?}", s)`).
#[verifier::external_body]
pub(crate) fn debug_str(s: &str) -> (r: String)
    ensures
        r@ == spec_debug_str(s@),
{
    format!("{:?}", s)
}


/// A JSON object of one member.
pub fn obj1(k1: &str, v1: String) -> (r: String)
    ensures
        r@ == json_object(seq![(k1@, v1@)]),
{
    let keys: [&str; 1] = [k1];
    let values: Vec<String> = vec![v1];
    let r = json_object_of(keys.as_slice(), values.as_slice());
    assert(Seq::new(1, |i: int| (keys@[i]@, values@[i]@)) =~= seq![(k1@, values@[0]@)]);
    r
}

/// A JSON object of two members, in the given order.
pub fn obj2(k1: &str, v1: String, k2: &str, v2: String) -> (r: String)
    ensures
        r@ == json_object(seq![(k1@, v1@), (k2@, v2@)]),
{
    let keys: [&str; 2] = [k1, k2];
    let values: Vec<String> = vec![v1, v2];
    let r = json_object_of(keys.as_slice(), values.as_slice());
    assert(Seq::new(2, |i: int| (keys@[i]@, values@[i]@)) =~= seq![(k1@, values@[0]@), (k2@, values@[1]@)]);
    r
}

/// A JSON object of three members, in the given order.
pub fn obj3(k1: &str, v1: String, k2: &str, v2: String, k3: &str, v3: String) -> (r: String)
    ensures
        r@ == json_object(seq![(k1@, v1@), (k2@, v2@), (k3@, v3@)]),
{
    let keys: [&str; 3] = [k1, k2, k3];
    let values: Vec<String> = vec![v1, v2, v3];
    let r = json_object_of(keys.as_slice(), values.as_slice());
    assert(Seq::new(3, |i: int| (keys@[i]@, values@[i]@))
        =~= seq![(k1@, values@[0]@), (k2@, values@[1]@), (k3@, values@[2]@)]);
    r
}

/// A JSON object of four members, in the given order.
pub fn obj4(k1: &str, v1: String, k2: &str, v2: String, k3: &str, v3: String, k4: &str, v4: String) -> (r: String)
    ensures
        r@ == json_object(seq![(k1@, v1@), (k2@, v2@), (k3@, v3@), (k4@, v4@)]),
{
    let keys: [&str; 4] = [k1, k2, k3, k4];
    let values: Vec<String> = vec![v1, v2, v3, v4];
    let r = json_object_of(keys.as_slice(), values.as_slice());
    assert(Seq::new(4, |i: int| (keys@[i]@, values@[i]@))
        =~= seq![(k1@, values@[0]@), (k2@, values@[1]@), (k3@, values@[2]@), (k4@, values@[3]@)]);
    r
}

}
