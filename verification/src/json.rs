//! JSON text handled through `serde_json`, and JSON framing of the library's own outputs.
//!
//! JSON documents travel through the library as text. What `serde_json` computes from such a
//! text (a member of an object, the items of an array, the content of a string) is named by an
//! uninterpreted function of the text; the framing of the library's own objects and arrays is
//! stated exactly, with strings quoted by `serde_json`.
use vstd::prelude::*;
use crate::text::{copy_str, push_str};

verus! {

/// The compact text of member `key` of the JSON object in `text`; `None` where `text` is not
/// valid JSON, is not an object, or has no such member.
pub uninterp spec fn json_member_spec(text: Seq<char>, key: Seq<char>) -> Option<Seq<char>>;

/// The compact texts of the items of the JSON array in `text`; `None` where `text` is not a
/// valid JSON array.
pub uninterp spec fn json_elements_spec(text: Seq<char>) -> Option<Seq<Seq<char>>>;

/// The content of the JSON string in `text`; `None` where `text` is not a JSON string.
pub uninterp spec fn json_string_spec(text: Seq<char>) -> Option<Seq<char>>;

/// The value of the JSON number in `text` where it is an unsigned integer that fits in `u64`.
pub uninterp spec fn json_u64_spec(text: Seq<char>) -> Option<u64>;

/// A lower-case hexadecimal digit.
pub open spec fn lower_hex(d: nat) -> char {
    if d < 10 {
        (('0' as nat) + d) as char
    } else {
        (('a' as nat) + d - 10) as char
    }
}

/// How `serde_json` writes `c` inside a string: `"` and `\` behind a backslash, backspace,
/// tab, newline, form feed and carriage return as `\b`, `\t`, `\n`, `\f`, `\r`, other
/// control characters below 0x20 as `\u00` and two lower-case hex digits, any other
/// character as it is.
pub open spec fn escape_char(c: char) -> Seq<char> {
    let u = c as nat;
    if c == '"' {
        seq!['\\', '"']
    } else if c == '\\' {
        seq!['\\', '\\']
    } else if u == 0x08 {
        seq!['\\', 'b']
    } else if u == 0x09 {
        seq!['\\', 't']
    } else if u == 0x0A {
        seq!['\\', 'n']
    } else if u == 0x0C {
        seq!['\\', 'f']
    } else if u == 0x0D {
        seq!['\\', 'r']
    } else if u < 0x20 {
        seq!['\\', 'u', '0', '0', lower_hex(u / 16), lower_hex(u % 16)]
    } else {
        seq![c]
    }
}

/// The characters of `s`, each escaped as `serde_json` writes it.
pub open spec fn escaped(s: Seq<char>) -> Seq<char>
    decreases s.len(),
{
    if s.len() == 0 {
        Seq::empty()
    } else {
        escaped(s.drop_last()) + escape_char(s.last())
    }
}

/// The JSON string literal that `serde_json` writes for `s`: `s` escaped, between quotes.
pub open spec fn json_quote_spec(s: Seq<char>) -> Seq<char> {
    seq!['"'] + escaped(s) + seq!['"']
}

/// Whether `text` is a valid JSON document.
pub uninterp spec fn json_valid_spec(text: Seq<char>) -> bool;

/// Looks up member `key` of the object in `text` with `serde_json::from_str::<Value>` and
/// `Value::get`, and writes the member back as compact text. Claims only that the result is
/// the named function of `text` and `key`.
#[verifier::external_body]
pub fn json_member(text: &str, key: &str) -> (res: Option<String>)
    ensures
        match res {
            Some(m) => json_member_spec(text@, key@) == Some(m@),
            None => json_member_spec(text@, key@) is None,
        },
{
    serde_json::from_str::<serde_json::Value>(text).ok().and_then(|v| v.get(key).map(|m| m.to_string()))
}

/// Reads `text` as an array with `serde_json::from_str::<Vec<Value>>` and writes each item
/// back as compact text. Claims only that the result is the named function of `text`.
#[verifier::external_body]
pub fn json_elements(text: &str) -> (res: Option<Vec<String>>)
    ensures
        match res {
            Some(items) => json_elements_spec(text@) == Some(items.deep_view()),
            None => json_elements_spec(text@) is None,
        },
{
    serde_json::from_str::<Vec<serde_json::Value>>(text).ok().map(|items| items.iter().map(|v| v.to_string()).collect())
}

/// Reads `text` as a string with `serde_json::from_str::<String>`. Claims only that the result
/// is the named function of `text`.
#[verifier::external_body]
pub fn json_string(text: &str) -> (res: Option<String>)
    ensures
        match res {
            Some(s) => json_string_spec(text@) == Some(s@),
            None => json_string_spec(text@) is None,
        },
{
    serde_json::from_str::<String>(text).ok()
}

/// Reads `text` as an unsigned integer with `serde_json::from_str::<u64>`. Claims only that the
/// result is the named function of `text`.
#[verifier::external_body]
pub fn json_u64(text: &str) -> (res: Option<u64>)
    ensures
        res == json_u64_spec(text@),
{
    serde_json::from_str::<u64>(text).ok()
}

/// Writes `s` as a JSON string literal with `serde_json::to_string`, which escapes as
/// `escape_char` states; serialising a `str` does not fail.
#[verifier::external_body]
pub fn json_quote(s: &str) -> (res: String)
    ensures
        res@ == json_quote_spec(s@),
{
    match serde_json::to_string(s) {
        Ok(t) => t,
        Err(_) => String::new(),
    }
}

/// Whether `serde_json::from_str::<Value>` accepts `text`. Claims only that the result is the
/// named function of `text`.
#[verifier::external_body]
pub fn json_valid(text: &str) -> (res: bool)
    ensures
        res == json_valid_spec(text@),
{
    serde_json::from_str::<serde_json::Value>(text).is_ok()
}

// ---------------------------------------------------------------------------
// Composite reads
// ---------------------------------------------------------------------------

/// The string content of member `key` of the object in `text`, as `value[key].as_str()`.
pub open spec fn json_str_field(text: Seq<char>, key: Seq<char>) -> Option<Seq<char>> {
    match json_member_spec(text, key) {
        Some(m) => json_string_spec(m),
        None => None,
    }
}

/// The text of member `key`, or `null` where there is none, as `value[key]` reads it.
pub open spec fn json_index(text: Seq<char>, key: Seq<char>) -> Seq<char> {
    match json_member_spec(text, key) {
        Some(m) => m,
        None => "null"@,
    }
}

/// The text of item 0 of the array in `text`, or `null` where there is none, as `value[0]`.
pub open spec fn json_first(text: Seq<char>) -> Seq<char> {
    match json_elements_spec(text) {
        Some(items) => if items.len() > 0 {
            items[0]
        } else {
            "null"@
        },
        None => "null"@,
    }
}

/// The string content of member `key` of the object in `text`.
pub fn json_str_field_of(text: &str, key: &str) -> (res: Option<String>)
    ensures
        match res {
            Some(s) => json_str_field(text@, key@) == Some(s@),
            None => json_str_field(text@, key@) is None,
        },
{
    match json_member(text, key) {
        Some(m) => json_string(m.as_str()),
        None => None,
    }
}

/// The text of member `key`, or `null`.
pub fn json_index_of(text: &str, key: &str) -> (res: String)
    ensures
        res@ == json_index(text@, key@),
{
    match json_member(text, key) {
        Some(m) => m,
        None => "null".to_string(),
    }
}

/// The text of item 0 of the array in `text`, or `null`.
pub fn json_first_of(text: &str) -> (res: String)
    ensures
        res@ == json_first(text@),
{
    match json_elements(text) {
        Some(items) => {
            if items.len() > 0 {
                let first = copy_str(items[0].as_str());
                proof {
                    assert(items.deep_view()[0] == items@[0]@);
                }
                first
            } else {
                "null".to_string()
            }
        },
        None => "null".to_string(),
    }
}

// ---------------------------------------------------------------------------
// Framing
// ---------------------------------------------------------------------------

/// A key written as a JSON string; the keys this library writes need no escapes.
pub open spec fn json_key(k: Seq<char>) -> Seq<char> {
    seq!['"'] + k + seq!['"']
}

/// The members `"k": v` of `fields`, separated by commas.
pub open spec fn json_members(fields: Seq<(Seq<char>, Seq<char>)>) -> Seq<char>
    decreases fields.len(),
{
    if fields.len() == 0 {
        Seq::empty()
    } else if fields.len() == 1 {
        json_key(fields[0].0) + seq![':'] + fields[0].1
    } else {
        json_members(fields.drop_last()) + seq![','] + json_key(fields.last().0) + seq![':']
            + fields.last().1
    }
}

/// The compact JSON object with the given members, in the given order.
pub open spec fn json_object(fields: Seq<(Seq<char>, Seq<char>)>) -> Seq<char> {
    seq!['{'] + json_members(fields) + seq!['}']
}

/// The items of `items`, separated by commas.
pub open spec fn json_items(items: Seq<Seq<char>>) -> Seq<char>
    decreases items.len(),
{
    if items.len() == 0 {
        Seq::empty()
    } else if items.len() == 1 {
        items[0]
    } else {
        json_items(items.drop_last()) + seq![','] + items.last()
    }
}

/// The compact JSON array with the given items.
pub open spec fn json_array(items: Seq<Seq<char>>) -> Seq<char> {
    seq!['['] + json_items(items) + seq![']']
}

pub open spec fn field_views(fields: Seq<(String, String)>) -> Seq<(Seq<char>, Seq<char>)> {
    fields.map_values(|f: (String, String)| (f.0@, f.1@))
}

/// Writes a JSON object from (key, member text) pairs.
pub fn write_json_object(fields: &Vec<(String, String)>) -> (res: String)
    ensures
        res@ == json_object(field_views(fields@)),
{
    let mut res = String::new();
    res.push('{');
    assert(fields@.subrange(0, 0) =~= Seq::<(String, String)>::empty());
    assert(res@ =~= seq!['{'] + json_members(field_views(fields@.subrange(0, 0))));
    let mut i: usize = 0;
    while i < fields.len()
        invariant
            0 <= i <= fields@.len(),
            res@ == seq!['{'] + json_members(field_views(fields@.subrange(0, i as int))),
        decreases fields@.len() - i,
    {
        let ghost before = res@;
        if i > 0 {
            res.push(',');
        }
        res.push('"');
        push_str(&mut res, fields[i].0.as_str());
        res.push('"');
        res.push(':');
        push_str(&mut res, fields[i].1.as_str());
        proof {
            let pre = field_views(fields@.subrange(0, i as int));
            let post = field_views(fields@.subrange(0, i + 1));
            assert(post.drop_last() =~= pre);
            assert(post.last() == (fields@[i as int].0@, fields@[i as int].1@));
            if i == 0 {
                assert(pre =~= Seq::empty());
            }
            assert(res@ =~= seq!['{'] + json_members(post));
        }
        i = i + 1;
    }
    res.push('}');
    proof {
        assert(fields@.subrange(0, fields@.len() as int) =~= fields@);
        assert(res@ =~= json_object(field_views(fields@)));
    }
    res
}

/// Writes a JSON array from item texts.
pub fn write_json_array(items: &Vec<String>) -> (res: String)
    ensures
        res@ == json_array(items.deep_view()),
{
    let mut res = String::new();
    res.push('[');
    assert(items.deep_view().subrange(0, 0) =~= Seq::<Seq<char>>::empty());
    let mut i: usize = 0;
    while i < items.len()
        invariant
            0 <= i <= items@.len(),
            res@ == seq!['['] + json_items(items.deep_view().subrange(0, i as int)),
        decreases items@.len() - i,
    {
        if i > 0 {
            res.push(',');
        }
        push_str(&mut res, items[i].as_str());
        proof {
            let pre = items.deep_view().subrange(0, i as int);
            let post = items.deep_view().subrange(0, i + 1);
            assert(post.drop_last() =~= pre);
            assert(post.last() == items@[i as int]@);
            if i == 0 {
                assert(pre =~= Seq::empty());
            }
            assert(res@ =~= seq!['['] + json_items(post));
        }
        i = i + 1;
    }
    res.push(']');
    proof {
        assert(items.deep_view().subrange(0, items@.len() as int) =~= items.deep_view());
        assert(res@ =~= json_array(items.deep_view()));
    }
    res
}

} // verus!
