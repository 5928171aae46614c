//! JSON documents as the daemon reads and writes them.
//!
//! Incoming lines are decoded into [`JsonValue`] at the edge of the program; the library
//! reads fields out of them. Outgoing lines are written here, field by field, in the exact
//! form serde_json gives a `json!` object: keys in sorted order, no whitespace (or, for the
//! pretty form, two-space indentation), each string quoted and escaped by serde_json.

use vstd::prelude::*;
use crate::primitives::{json_char, json_chars, json_quote, json_string};
use crate::text::hex_digit;
use crate::text::{decimal, push_decimal};

verus! {

/// A JSON number as the daemon reads it: a non-negative integer, a negative integer, or
/// anything else (a fraction or an exponent), whose value the daemon never needs.
pub enum JsonNumber {
    PosInt(u64),
    NegInt(i64),
    Fraction,
}

/// A decoded JSON value. Object members keep their order.
pub enum JsonValue {
    Null,
    Bool(bool),
    Number(JsonNumber),
    Text(String),
    List(Vec<JsonValue>),
    Object(Vec<(String, JsonValue)>),
}

/// The value of the first member of `members` named `name`.
pub open spec fn member_spec(members: Seq<(String, JsonValue)>, name: Seq<char>) -> Option<JsonValue>
    decreases members.len(),
{
    if members.len() == 0 {
        None
    } else if members[0].0@ == name {
        Some(members[0].1)
    } else {
        member_spec(members.skip(1), name)
    }
}

/// `value.get(name)`: the member `name` of an object, `None` for anything else.
pub open spec fn get_spec(value: JsonValue, name: Seq<char>) -> Option<JsonValue> {
    match value {
        JsonValue::Object(members) => member_spec(members@, name),
        _ => None,
    }
}

/// `value.get(name).and_then(as_str)`.
pub open spec fn str_field(value: JsonValue, name: Seq<char>) -> Option<Seq<char>> {
    match get_spec(value, name) {
        Some(JsonValue::Text(text)) => Some(text@),
        _ => None,
    }
}

/// `value.get(name).and_then(as_u64)`.
pub open spec fn u64_field(value: JsonValue, name: Seq<char>) -> Option<u64> {
    match get_spec(value, name) {
        Some(JsonValue::Number(JsonNumber::PosInt(n))) => Some(n),
        _ => None,
    }
}

/// `value.get(name).and_then(as_bool)`.
pub open spec fn bool_field(value: JsonValue, name: Seq<char>) -> Option<bool> {
    match get_spec(value, name) {
        Some(JsonValue::Bool(b)) => Some(b),
        _ => None,
    }
}

/// Whether `a` and `b` hold the same text.
pub fn string_eq(a: &String, b: &str) -> (r: bool)
    ensures
        r == (a@ == b@),
{
    *a == b.to_owned()
}

/// The member `name` of an object.
pub fn get<'a>(value: &'a JsonValue, name: &str) -> (r: Option<&'a JsonValue>)
    ensures
        r matches Some(v) ==> get_spec(*value, name@) == Some(*v),
        r is None ==> get_spec(*value, name@) is None,
{
    match value {
        JsonValue::Object(members) => {
            let mut i: usize = 0;
            assert(members@.skip(0) =~= members@);
            while i < members.len()
                invariant
                    i <= members@.len(),
                    get_spec(*value, name@) == member_spec(members@, name@),
                    member_spec(members@, name@) == member_spec(members@.skip(i as int), name@),
                decreases members@.len() - i,
            {
                let pair = &members[i];
                assert(members@.skip(i as int)[0] == members@[i as int]);
                assert(members@.skip(i as int).skip(1) =~= members@.skip(i + 1));
                if string_eq(&pair.0, name) {
                    return Some(&pair.1);
                }
                i = i + 1;
            }
            None
        },
        _ => None,
    }
}

/// The text of the member `name`, if it is a string.
pub fn get_str(value: &JsonValue, name: &str) -> (r: Option<String>)
    ensures
        r.deep_view() == str_field(*value, name@),
{
    match get(value, name) {
        Some(JsonValue::Text(text)) => Some(text.clone()),
        _ => None,
    }
}

/// The member `name`, if it is a non-negative integer.
pub fn get_u64(value: &JsonValue, name: &str) -> (r: Option<u64>)
    ensures
        r == u64_field(*value, name@),
{
    match get(value, name) {
        Some(JsonValue::Number(JsonNumber::PosInt(n))) => Some(*n),
        _ => None,
    }
}

/// The member `name`, if it is a boolean.
pub fn get_bool(value: &JsonValue, name: &str) -> (r: Option<bool>)
    ensures
        r == bool_field(*value, name@),
{
    match get(value, name) {
        Some(JsonValue::Bool(b)) => Some(*b),
        _ => None,
    }
}

/// The text of the member `name` if it is a string, otherwise `fallback`.
pub fn text_or(value: &JsonValue, name: &str, fallback: &str) -> (r: String)
    ensures
        r@ == match str_field(*value, name@) {
            Some(text) => text,
            None => fallback@,
        },
{
    match get_str(value, name) {
        Some(text) => text,
        None => fallback.to_owned(),
    }
}

/// A value the daemon writes into a JSON line.
pub enum JsonOut {
    Text(String),
    UInt(u64),
    Bool(bool),
}

/// The JSON text of one value.
pub open spec fn value_text(value: JsonOut) -> Seq<char> {
    match value {
        JsonOut::Text(text) => json_string(text@),
        JsonOut::UInt(n) => decimal(n as nat),
        JsonOut::Bool(b) => if b { "true"@ } else { "false"@ },
    }
}

/// Each member as its key and the JSON text of its value.
pub open spec fn members_view(fields: Seq<(&str, JsonOut)>) -> Seq<(Seq<char>, Seq<char>)> {
    fields.map_values(|f: (&str, JsonOut)| (f.0@, value_text(f.1)))
}

/// `"key":value`.
pub open spec fn member_text(member: (Seq<char>, Seq<char>)) -> Seq<char> {
    json_string(member.0) + ":"@ + member.1
}

/// The members of an object, separated by commas.
pub open spec fn members_text(members: Seq<(Seq<char>, Seq<char>)>) -> Seq<char>
    decreases members.len(),
{
    if members.len() == 0 {
        Seq::empty()
    } else if members.len() == 1 {
        member_text(members[0])
    } else {
        members_text(members.drop_last()) + ","@ + member_text(members.last())
    }
}

/// A compact JSON object with the given members (key, value text) in the given order.
pub open spec fn object_text(members: Seq<(Seq<char>, Seq<char>)>) -> Seq<char> {
    "{"@ + members_text(members) + "}"@
}

/// `"key": value` on its own line, indented by two spaces, after a comma for all but the
/// first member.
pub open spec fn pretty_members(members: Seq<(Seq<char>, Seq<char>)>) -> Seq<char>
    decreases members.len(),
{
    if members.len() == 0 {
        Seq::empty()
    } else {
        let separator = if members.len() == 1 { "\n"@ } else { ",\n"@ };
        pretty_members(members.drop_last()) + separator + "  "@ + json_string(members.last().0) + ": "@
            + members.last().1
    }
}

/// A JSON object in serde_json's pretty form.
pub open spec fn pretty_text(members: Seq<(Seq<char>, Seq<char>)>) -> Seq<char> {
    if members.len() == 0 {
        "{}"@
    } else {
        "{"@ + pretty_members(members) + "\n}"@
    }
}

fn push_value(out: &mut String, value: &JsonOut)
    ensures
        final(out)@ == old(out)@ + value_text(*value),
{
    match value {
        JsonOut::Text(text) => {
            let quoted = json_quote(text.as_str());
            out.append(quoted.as_str());
        },
        JsonOut::UInt(n) => push_decimal(out, *n),
        JsonOut::Bool(b) => {
            if *b {
                out.append("true");
            } else {
                out.append("false");
            }
        },
    }
}

/// Writes a compact JSON object with the given members, in the given order.
pub fn write_object(fields: &Vec<(&str, JsonOut)>) -> (r: String)
    ensures
        r@ == object_text(members_view(fields@)),
{
    let mut out = String::new();
    out.append("{");
    let mut i: usize = 0;
    while i < fields.len()
        invariant
            i <= fields@.len(),
            out@ == "{"@ + members_text(members_view(fields@).take(i as int)),
        decreases fields@.len() - i,
    {
        let ghost before = out@;
        let ghost members = members_view(fields@);
        assert(members.take(i + 1).drop_last() =~= members.take(i as int));
        assert(members.take(i + 1).last() == members[i as int]);
        if i > 0 {
            out.append(",");
        }
        let quoted = json_quote(fields[i].0);
        out.append(quoted.as_str());
        out.append(":");
        push_value(&mut out, &fields[i].1);
        proof {
            if i == 0 {
                assert(out@ =~= before + member_text(members[0]));
            } else {
                assert(out@ =~= before + ","@ + member_text(members[i as int]));
            }
        }
        i = i + 1;
    }
    assert(members_view(fields@).take(fields@.len() as int) =~= members_view(fields@));
    out.append("}");
    out
}

/// Writes a JSON object in serde_json's pretty form.
pub fn write_object_pretty(fields: &Vec<(&str, JsonOut)>) -> (r: String)
    ensures
        r@ == pretty_text(members_view(fields@)),
{
    let mut out = String::new();
    if fields.len() == 0 {
        out.append("{}");
        return out;
    }
    out.append("{");
    let mut i: usize = 0;
    while i < fields.len()
        invariant
            i <= fields@.len(),
            out@ == "{"@ + pretty_members(members_view(fields@).take(i as int)),
        decreases fields@.len() - i,
    {
        let ghost before = out@;
        let ghost members = members_view(fields@);
        assert(members.take(i + 1).drop_last() =~= members.take(i as int));
        assert(members.take(i + 1).last() == members[i as int]);
        if i > 0 {
            out.append(",\n");
        } else {
            out.append("\n");
        }
        out.append("  ");
        let quoted = json_quote(fields[i].0);
        out.append(quoted.as_str());
        out.append(": ");
        push_value(&mut out, &fields[i].1);
        i = i + 1;
    }
    assert(members_view(fields@).take(fields@.len() as int) =~= members_view(fields@));
    out.append("\n}");
    out
}

/// A JSON string literal never holds a line feed: serde_json writes U+000A as `\n`, and
/// every character it leaves as itself is at least U+0020.
pub proof fn lemma_json_string_one_line(text: Seq<char>)
    ensures
        !json_string(text).contains('\n'),
{
    reveal(json_string);
    lemma_json_chars_one_line(text);
    let s = json_string(text);
    assert(s =~= seq!['"'] + json_chars(text) + seq!['"']);
    assert forall|i: int| 0 <= i < s.len() implies s[i] != '\n' by {
        if 1 <= i < s.len() - 1 {
            assert(s[i] == json_chars(text)[i - 1]);
        }
    }
}

proof fn lemma_json_char_one_line(c: char)
    ensures
        forall|i: int| 0 <= i < json_char(c).len() ==> json_char(c)[i] != '\n',
{
    if (c as u32) < 32 && c != '"' && c != '\\' && c != '\u{8}' && c != '\t' && c != '\n' && c != '\u{c}' && c != '\r' {
        lemma_hex_digit_range((c as u32 / 16) as nat);
        lemma_hex_digit_range((c as u32 % 16) as nat);
    }
}

proof fn lemma_json_chars_one_line(text: Seq<char>)
    ensures
        forall|i: int| 0 <= i < json_chars(text).len() ==> json_chars(text)[i] != '\n',
    decreases text.len(),
{
    if text.len() > 0 {
        lemma_json_char_one_line(text[0]);
        lemma_json_chars_one_line(text.drop_first());
        let head = json_char(text[0]);
        let tail = json_chars(text.drop_first());
        assert forall|i: int| 0 <= i < json_chars(text).len() implies json_chars(text)[i] != '\n' by {
            if i < head.len() {
                assert(json_chars(text)[i] == head[i]);
            } else {
                assert(json_chars(text)[i] == tail[i - head.len()]);
            }
        }
    }
}

/// A hex digit is an ASCII digit or a lower-case letter, and different values below 16 have
/// different digits.
proof fn lemma_hex_digit_range(d: nat)
    requires
        d < 16,
    ensures
        48 <= hex_digit(d) as u32 <= 57 || 97 <= hex_digit(d) as u32 <= 102,
        hex_digit(d) as u32 == if d < 10 { 48 + d } else { 87 + d },
{
}

/// The first character of an escape is a backslash, or the character itself when it needs
/// no escape; and the escape is determined by its own characters.
proof fn lemma_json_char_prefix(a: char, b: char, s: Seq<char>, t: Seq<char>)
    requires
        json_char(a) + s == json_char(b) + t,
    ensures
        a == b,
        s == t,
{
    let l = json_char(a) + s;
    assert(l[0] == json_char(a)[0]);
    assert(l[0] == json_char(b)[0]);
    if json_char(a).len() == 6 && json_char(b).len() == 6 {
        lemma_hex_digit_range((a as u32 / 16) as nat);
        lemma_hex_digit_range((a as u32 % 16) as nat);
        lemma_hex_digit_range((b as u32 / 16) as nat);
        lemma_hex_digit_range((b as u32 % 16) as nat);
        assert(l[4] == json_char(a)[4] && l[4] == json_char(b)[4]);
        assert(l[5] == json_char(a)[5] && l[5] == json_char(b)[5]);
        assert(a as u32 == b as u32);
    } else if json_char(a).len() >= 2 && json_char(b).len() >= 2 {
        assert(l[1] == json_char(a)[1] && l[1] == json_char(b)[1]);
    }
    assert(json_char(a) == json_char(b));
    assert(s =~= l.subrange(json_char(a).len() as int, l.len() as int));
    assert(t =~= l.subrange(json_char(b).len() as int, l.len() as int));
}

proof fn lemma_json_chars_prefix(x: Seq<char>, y: Seq<char>, s: Seq<char>, t: Seq<char>)
    requires
        json_chars(x) + seq!['"'] + s == json_chars(y) + seq!['"'] + t,
    ensures
        x == y,
        s == t,
    decreases x.len() + y.len(),
{
    let l = json_chars(x) + seq!['"'] + s;
    if x.len() == 0 && y.len() == 0 {
        assert(s =~= l.subrange(1, l.len() as int));
        assert(t =~= l.subrange(1, l.len() as int));
        assert(x =~= y);
    } else if x.len() == 0 {
        assert(l[0] == '"');
        assert(l[0] == json_char(y[0])[0]);
    } else if y.len() == 0 {
        assert(l[0] == '"');
        assert(l[0] == json_char(x[0])[0]);
    } else {
        let rx = json_chars(x.drop_first()) + seq!['"'] + s;
        let ry = json_chars(y.drop_first()) + seq!['"'] + t;
        assert(l =~= json_char(x[0]) + rx);
        assert(l =~= json_char(y[0]) + ry);
        lemma_json_char_prefix(x[0], y[0], rx, ry);
        lemma_json_chars_prefix(x.drop_first(), y.drop_first(), s, t);
        assert(x =~= seq![x[0]] + x.drop_first());
        assert(y =~= seq![y[0]] + y.drop_first());
    }
}

/// A JSON string literal ends where its closing quote is: when two texts each start with a
/// literal, the literals quote the same text and what follows them is the same.
pub proof fn lemma_json_string_prefix(x: Seq<char>, y: Seq<char>, s: Seq<char>, t: Seq<char>)
    requires
        json_string(x) + s == json_string(y) + t,
    ensures
        x == y,
        s == t,
{
    reveal(json_string);
    let l = json_string(x) + s;
    assert(l.subrange(1, l.len() as int) =~= json_chars(x) + seq!['"'] + s);
    assert(l.subrange(1, l.len() as int) =~= json_chars(y) + seq!['"'] + t);
    lemma_json_chars_prefix(x, y, s, t);
}

} // verus!
