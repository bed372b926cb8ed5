//! JSON values as the Mish state editor handles them: which editor a value
//! gets, and the compact JSON bytes an edit saves.
use vstd::prelude::*;

verus! {

/// A JSON value. Numbers keep their JSON text; an object keeps its members in
/// the order they were read.
#[derive(Debug, PartialEq, Eq)]
pub enum JsonValue {
    Null,
    Bool(bool),
    Number(String),
    Str(String),
    Array(Vec<JsonValue>),
    Object(Vec<(String, JsonValue)>),
}

/// How a character is written inside a JSON string by `serde_json`: quote
/// and backslash escaped with a backslash, backspace, tab, line feed, form
/// feed and carriage return by their short escapes, other control characters
/// below 0x20 as `\u00` and two lowercase hex digits, everything else as it
/// is.
pub open spec fn escaped_char(c: char) -> Seq<char> {
    if c == '"' {
        seq!['\\', '"']
    } else if c == '\\' {
        seq!['\\', '\\']
    } else if c == '\u{8}' {
        seq!['\\', 'b']
    } else if c == '\t' {
        seq!['\\', 't']
    } else if c == '\n' {
        seq!['\\', 'n']
    } else if c == '\u{c}' {
        seq!['\\', 'f']
    } else if c == '\r' {
        seq!['\\', 'r']
    } else if (c as u32) < 0x20 {
        seq![
            '\\',
            'u',
            '0',
            '0',
            crate::hexcodec::hex_digit((c as u32 / 16) as nat),
            crate::hexcodec::hex_digit((c as u32 % 16) as nat),
        ]
    } else {
        seq![c]
    }
}

/// The characters of a string, each escaped.
pub open spec fn escaped(s: Seq<char>) -> Seq<char>
    decreases s.len(),
{
    if s.len() == 0 {
        Seq::empty()
    } else {
        escaped(s.drop_last()) + escaped_char(s.last())
    }
}

/// The JSON string literal that `serde_json` writes for a string.
pub open spec fn json_string(s: Seq<char>) -> Seq<char> {
    seq!['"'] + escaped(s) + seq!['"']
}

/// `serde_json::to_string` on a `str`: the string between double quotes,
/// escaped as `escaped_char` says (the crate's `ESCAPE` table and
/// `write_char_escape`). Serialising a string cannot fail.
#[verifier::external_body]
pub(crate) fn json_quote(s: &str) -> (r: String)
    ensures
        r@ == json_string(s@),
{
    match serde_json::to_string(s) {
        Ok(t) => t,
        Err(_) => String::new(),
    }
}

/// Compact JSON text of a value, as `serde_json` writes it: no whitespace,
/// members as `"key":value`, items and members separated by commas.
pub open spec fn json_text(v: JsonValue) -> Seq<char>
    decreases v,
{
    match v {
        JsonValue::Null => "null"@,
        JsonValue::Bool(b) => if b {
            "true"@
        } else {
            "false"@
        },
        JsonValue::Number(t) => t@,
        JsonValue::Str(s) => json_string(s@),
        JsonValue::Array(items) => "["@ + items_text(items@) + "]"@,
        JsonValue::Object(members) => "{"@ + members_text(members@) + "}"@,
    }
}

/// The items of an array, comma-separated.
pub open spec fn items_text(items: Seq<JsonValue>) -> Seq<char>
    decreases items,
{
    if items.len() == 0 {
        Seq::empty()
    } else if items.len() == 1 {
        json_text(items[0])
    } else {
        items_text(items.subrange(0, items.len() - 1)) + ","@ + json_text(items[items.len() - 1])
    }
}

/// The members of an object, comma-separated.
pub open spec fn members_text(members: Seq<(String, JsonValue)>) -> Seq<char>
    decreases members,
{
    if members.len() == 0 {
        Seq::empty()
    } else if members.len() == 1 {
        json_string(members[0].0@) + ":"@ + json_text(members[0].1)
    } else {
        members_text(members.subrange(0, members.len() - 1)) + ","@ + json_string(
            members[members.len() - 1].0@,
        ) + ":"@ + json_text(members[members.len() - 1].1)
    }
}

/// Appends the compact JSON text of `v` to `out`.
pub fn write_json(v: &JsonValue, out: &mut String)
    ensures
        final(out)@ == old(out)@ + json_text(*v),
    decreases v,
{
    match v {
        JsonValue::Null => out.append("null"),
        JsonValue::Bool(b) => if *b {
            out.append("true")
        } else {
            out.append("false")
        },
        JsonValue::Number(t) => out.append(t.as_str()),
        JsonValue::Str(s) => out.append(json_quote(s.as_str()).as_str()),
        JsonValue::Array(items) => {
            let ghost start = out@;
            out.append("[");
            let mut i: usize = 0;
            while i < items.len()
                invariant
                    i <= items.len(),
                    v is Array,
                    v->Array_0 == *items,
                    out@ == start + "["@ + items_text(items@.take(i as int)),
                decreases items.len() - i,
            {
                let ghost before = out@;
                if i > 0 {
                    out.append(",");
                }
                proof {
                    assert(decreases_to!(*v => v->Array_0));
                    assert(decreases_to!(*items => items@));
                    assert(decreases_to!(items@ => items@[i as int]));
                }
                write_json(&items[i], out);
                proof {
                    let t = items@.take(i + 1);
                    if i > 0 {
                        assert(t.subrange(0, t.len() - 1) =~= items@.take(i as int));
                        assert(t[t.len() - 1] == items@[i as int]);
                    } else {
                        assert(t[0] == items@[0]);
                        assert(items@.take(0).len() == 0);
                    }
                }
                i = i + 1;
            }
            assert(items@.take(items.len() as int) =~= items@);
            out.append("]");
        },
        JsonValue::Object(members) => {
            let ghost start = out@;
            out.append("{");
            let mut i: usize = 0;
            while i < members.len()
                invariant
                    i <= members.len(),
                    v is Object,
                    v->Object_0 == *members,
                    out@ == start + "{"@ + members_text(members@.take(i as int)),
                decreases members.len() - i,
            {
                if i > 0 {
                    out.append(",");
                }
                out.append(json_quote(members[i].0.as_str()).as_str());
                out.append(":");
                proof {
                    assert(decreases_to!(*v => v->Object_0));
                    assert(decreases_to!(*members => members@));
                    assert(decreases_to!(members@ => members@[i as int]));
                    assert(decreases_to!(members@[i as int] => members@[i as int].1));
                }
                write_json(&members[i].1, out);
                proof {
                    let t = members@.take(i + 1);
                    if i > 0 {
                        assert(t.subrange(0, t.len() - 1) =~= members@.take(i as int));
                        assert(t[t.len() - 1] == members@[i as int]);
                    } else {
                        assert(t[0] == members@[0]);
                        assert(members@.take(0).len() == 0);
                    }
                }
                i = i + 1;
            }
            assert(members@.take(members.len() as int) =~= members@);
            out.append("}");
        },
    }
}

/// The compact JSON bytes of a value (what `serde_json::to_vec` writes).
pub fn json_bytes(v: &JsonValue) -> (r: Vec<u8>)
    ensures
        r@ == vstd::utf8::encode_utf8(json_text(*v)),
{
    let mut out = String::new();
    write_json(v, &mut out);
    assert(out@ =~= json_text(*v));
    out.as_str().as_bytes_vec()
}

/// The editor a Mish state value gets.
#[derive(Clone, Copy, Debug, PartialEq, Eq, Structural)]
pub enum EditorKind {
    /// The raw JSON text editor.
    Raw,
    /// A checkbox, checked or not.
    Checkbox(bool),
    /// A text editor for a string.
    Text,
    /// An editor for a number's text.
    Number,
    /// One editor per member of an object.
    Fields,
}

/// The editor the Mish state editor component shows for a value: a checkbox
/// for a boolean, a text editor for a string, a number editor for a number,
/// one editor per member for an object, and the raw editor for null and
/// arrays. The component's raw-mode checkbox starts unchecked and the choice
/// is made once, when the component is built, so the mode never enters it.
pub fn editor_kind(state: &JsonValue) -> (r: EditorKind)
    ensures
        r == match *state {
            JsonValue::Bool(b) => EditorKind::Checkbox(b),
            JsonValue::Str(_) => EditorKind::Text,
            JsonValue::Number(_) => EditorKind::Number,
            JsonValue::Object(_) => EditorKind::Fields,
            _ => EditorKind::Raw,
        },
{
    match state {
        JsonValue::Bool(b) => EditorKind::Checkbox(*b),
        JsonValue::Str(_) => EditorKind::Text,
        JsonValue::Number(_) => EditorKind::Number,
        JsonValue::Object(_) => EditorKind::Fields,
        _ => EditorKind::Raw,
    }
}

/// What the checkbox editor saves: the JSON boolean.
pub fn checkbox_save(checked: bool) -> (r: Vec<u8>)
    ensures
        r@ == vstd::utf8::encode_utf8(if checked { "true"@ } else { "false"@ }),
{
    json_bytes(&JsonValue::Bool(checked))
}

/// What the text editor saves: the text as a JSON string.
pub fn text_save(text: &str) -> (r: Vec<u8>)
    ensures
        r@ == vstd::utf8::encode_utf8(json_string(text@)),
{
    json_quote(text).as_str().as_bytes_vec()
}

/// Why the number editor does not save.
#[derive(Clone, Copy, Debug, PartialEq, Eq, Structural)]
pub enum NumberEditorError {
    /// The text is no JSON.
    Unparsable,
    /// The text is JSON but no number.
    NotANumber,
}

/// What the number editor saves, given its text read as JSON (`None` when it
/// does not read as JSON): the number's JSON text, or why it refuses.
pub fn number_save(parsed: &Option<JsonValue>) -> (r: Result<Vec<u8>, NumberEditorError>)
    ensures
        match *parsed {
            None => r == Err::<Vec<u8>, NumberEditorError>(NumberEditorError::Unparsable),
            Some(JsonValue::Number(t)) => r matches Ok(b) && b@ == vstd::utf8::encode_utf8(t@),
            Some(_) => r == Err::<Vec<u8>, NumberEditorError>(NumberEditorError::NotANumber),
        },
{
    match parsed {
        None => Err(NumberEditorError::Unparsable),
        Some(JsonValue::Number(t)) => Ok(t.as_str().as_bytes_vec()),
        Some(_) => Err(NumberEditorError::NotANumber),
    }
}

/// What the editor of the member at `index` of an object saves when that
/// member's value becomes `value`: the whole object with that member
/// replaced, as JSON.
pub fn member_save(members: Vec<(String, JsonValue)>, index: usize, value: JsonValue) -> (r: Vec<
    u8,
>)
    requires
        index < members.len(),
    ensures
        r@ == vstd::utf8::encode_utf8(
            "{"@ + members_text(members@.update(index as int, (members@[index as int].0, value)))
                + "}"@,
        ),
{
    let ghost updated = members@.update(index as int, (members@[index as int].0, value));
    let mut members = members;
    let (key, _old) = members.remove(index);
    members.insert(index, (key, value));
    assert(members@ =~= updated);
    let object = JsonValue::Object(members);
    json_bytes(&object)
}

} // verus!
