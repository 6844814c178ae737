//! A small JSON writer.
use crate::text;
use crate::text::{digit, push_decimal, to_hex};
use vstd::prelude::*;

verus! {

/// A JSON value to write. Objects keep the order of their entries.
pub enum Json {
    Str(String),
    UInt(u64),
    SInt(i64),
    Bool(bool),
    Arr(Vec<Json>),
    Obj(Vec<(&'static str, Json)>),
}

/// The value that a [`Json`] stands for.
pub enum JsonItem {
    Str(Seq<char>),
    UInt(u64),
    SInt(i64),
    Bool(bool),
    Arr(Seq<JsonItem>),
    Obj(Seq<(Seq<char>, JsonItem)>),
}

pub open spec fn json_of(v: Json) -> JsonItem
    decreases v,
{
    match v {
        Json::Str(s) => JsonItem::Str(s@),
        Json::UInt(n) => JsonItem::UInt(n),
        Json::SInt(n) => JsonItem::SInt(n),
        Json::Bool(b) => JsonItem::Bool(b),
        Json::Arr(items) => JsonItem::Arr(
            Seq::new(
                items@.len(),
                |i: int|
                    if 0 <= i < items@.len() {
                        json_of(items@[i])
                    } else {
                        JsonItem::Bool(false)
                    },
            ),
        ),
        Json::Obj(entries) => JsonItem::Obj(
            Seq::new(
                entries@.len(),
                |i: int|
                    if 0 <= i < entries@.len() {
                        (entries@[i].0@, json_of(entries@[i].1))
                    } else {
                        (Seq::empty(), JsonItem::Bool(false))
                    },
            ),
        ),
    }
}

impl View for Json {
    type V = JsonItem;

    open spec fn view(&self) -> JsonItem {
        json_of(*self)
    }
}

/// The values that a list stands for.
pub open spec fn values_of(items: Seq<Json>) -> Seq<JsonItem> {
    Seq::new(items.len(), |i: int| items[i]@)
}

/// The entries that a list of names and values stands for.
pub open spec fn members_of(entries: Seq<(&str, Json)>) -> Seq<(Seq<char>, JsonItem)> {
    Seq::new(entries.len(), |i: int| (entries[i].0@, entries[i].1@))
}

/// The text of a byte string: its hexadecimal digits.
pub open spec fn hex_item(bytes: Seq<u8>) -> JsonItem {
    JsonItem::Str(text::hex(bytes))
}

impl Json {
    /// A text.
    pub fn text(s: &str) -> (value: Json)
        ensures
            value@ == JsonItem::Str(s@),
    {
        Json::Str(String::from_str(s))
    }

    /// An array.
    pub fn array(items: Vec<Json>) -> (value: Json)
        ensures
            value@ == JsonItem::Arr(values_of(items@)),
    {
        let ghost inside = items@;
        let value = Json::Arr(items);
        assert(value@->Arr_0 =~= values_of(inside));
        value
    }

    /// An object.
    pub fn object(entries: Vec<(&'static str, Json)>) -> (value: Json)
        ensures
            value@ == JsonItem::Obj(members_of(entries@)),
    {
        let ghost inside = entries@;
        let value = Json::Obj(entries);
        assert(value@->Obj_0 =~= members_of(inside));
        value
    }

    /// The hexadecimal digits of a byte string.
    pub fn hex(bytes: &[u8]) -> (value: Json)
        ensures
            value@ == hex_item(bytes@),
    {
        Json::Str(to_hex(bytes))
    }
}

// ---- what is written ----

/// What is written for one character of a text.
pub open spec fn escaped(c: char) -> Seq<char> {
    if c == '"' {
        seq!['\\', '"']
    } else if c == '\\' {
        seq!['\\', '\\']
    } else if c == '\n' {
        seq!['\\', 'n']
    } else if c == '\t' {
        seq!['\\', 't']
    } else if (c as u32) < 0x20 {
        seq![
            '\\',
            'u',
            '0',
            '0',
            text::digit_char(c as nat / 16),
            text::digit_char(c as nat % 16),
        ]
    } else {
        seq![c]
    }
}

/// What is written for the characters of a text.
pub open spec fn escaped_text(s: Seq<char>) -> Seq<char>
    decreases s.len(),
{
    if s.len() == 0 {
        Seq::empty()
    } else {
        escaped_text(s.drop_last()) + escaped(s.last())
    }
}

/// What is written for a text, quotes included.
pub open spec fn string_text(s: Seq<char>) -> Seq<char> {
    seq!['"'] + escaped_text(s) + seq!['"']
}

/// The beginning of a line: two spaces for each level.
pub open spec fn pad(indent: nat) -> Seq<char> {
    Seq::new(2 * indent, |i: int| ' ')
}

/// The decimal digits of a signed number.
pub open spec fn signed_text(n: i64) -> Seq<char> {
    if n < 0 {
        seq!['-'] + text::decimal((-n) as nat)
    } else {
        text::decimal(n as nat)
    }
}

/// What is written for a value that stands `indent` levels deep.
pub open spec fn json_text(v: JsonItem, indent: nat) -> Seq<char>
    decreases v, 0nat,
{
    match v {
        JsonItem::Str(s) => string_text(s),
        JsonItem::UInt(n) => text::decimal(n as nat),
        JsonItem::SInt(n) => signed_text(n),
        JsonItem::Bool(b) => if b {
            "true"@
        } else {
            "false"@
        },
        JsonItem::Arr(items) => if items.len() == 0 {
            "[]"@
        } else {
            "[\n"@ + item_lines(items, items.len(), indent + 1) + pad(indent) + seq![']']
        },
        JsonItem::Obj(entries) => if entries.len() == 0 {
            "{}"@
        } else {
            "{\n"@ + entry_lines(entries, entries.len(), indent + 1) + pad(indent) + seq!['}']
        },
    }
}

/// The comma after all but the last of `total`.
pub open spec fn comma(n: nat, total: nat) -> Seq<char> {
    if n < total {
        seq![',']
    } else {
        Seq::empty()
    }
}

/// The lines of the first `n` items of an array.
pub open spec fn item_lines(items: Seq<JsonItem>, n: nat, indent: nat) -> Seq<char>
    decreases items, n,
{
    if n == 0 || n > items.len() {
        Seq::empty()
    } else {
        item_lines(items, (n - 1) as nat, indent) + pad(indent) + json_text(items[n - 1], indent)
            + comma(n, items.len()) + seq!['\n']
    }
}

/// The lines of the first `n` entries of an object.
pub open spec fn entry_lines(entries: Seq<(Seq<char>, JsonItem)>, n: nat, indent: nat) -> Seq<char>
    decreases entries, n,
{
    if n == 0 || n > entries.len() {
        Seq::empty()
    } else {
        entry_lines(entries, (n - 1) as nat, indent) + pad(indent) + string_text(entries[n - 1].0)
            + ": "@ + json_text(entries[n - 1].1, indent) + comma(n, entries.len()) + seq!['\n']
    }
}

// ---- writing ----

/// Appends a text, with quotes.
pub fn write_json_string(s: &str, out: &mut String)
    ensures
        final(out)@ == old(out)@ + string_text(s@),
{
    out.push('"');
    let total: usize = s.unicode_len();
    let mut i: usize = 0;
    assert(s@.take(0) =~= Seq::empty());
    assert(out@ =~= old(out)@.push('"') + escaped_text(s@.take(0)));
    while i < total
        invariant
            i <= total == s@.len(),
            out@ == old(out)@.push('"') + escaped_text(s@.take(i as int)),
        decreases total - i,
    {
        let c: char = s.get_char(i);
        let ghost before = out@;
        if c == '"' {
            out.push('\\');
            out.push('"');
        } else if c == '\\' {
            out.push('\\');
            out.push('\\');
        } else if c == '\n' {
            out.push('\\');
            out.push('n');
        } else if c == '\t' {
            out.push('\\');
            out.push('t');
        } else if (c as u32) < 0x20 {
            let code: u8 = c as u32 as u8;
            out.push('\\');
            out.push('u');
            out.push('0');
            out.push('0');
            out.push(digit(code / 16));
            out.push(digit(code % 16));
        } else {
            out.push(c);
        }
        assert(out@ =~= before + escaped(c));
        assert(s@.take(i + 1).drop_last() =~= s@.take(i as int));
        i += 1;
        assert(out@ =~= old(out)@.push('"') + escaped_text(s@.take(i as int)));
    }
    assert(s@.take(total as int) =~= s@);
    out.push('"');
    assert(out@ =~= old(out)@ + string_text(s@));
}

/// Appends the beginning of a line.
fn write_pad(out: &mut String, indent: usize)
    ensures
        final(out)@ == old(out)@ + pad(indent as nat),
{
    let mut i: usize = 0;
    assert(out@ =~= old(out)@ + pad(0));
    while i < indent
        invariant
            i <= indent,
            out@ == old(out)@ + pad(i as nat),
        decreases indent - i,
    {
        out.push(' ');
        out.push(' ');
        i += 1;
        assert(out@ =~= old(out)@ + pad(i as nat));
    }
}

/// Appends a signed number.
fn write_signed(out: &mut String, n: i64)
    ensures
        final(out)@ == old(out)@ + signed_text(n),
{
    if n < 0 {
        out.push('-');
        let magnitude: u64 = (-(n as i128)) as u64;
        push_decimal(out, magnitude);
        assert(out@ =~= old(out)@ + signed_text(n));
    } else {
        push_decimal(out, n as u64);
    }
}

/// The level of a line that begins with `margin`.
pub open spec fn level(margin: Seq<char>) -> nat {
    margin.len() / 2
}

/// Appends a value whose line begins with `margin`.
fn write_at(value: &Json, out: &mut String, margin: &str)
    requires
        margin@ == pad(level(margin@)),
    ensures
        final(out)@ == old(out)@ + json_text(value@, level(margin@)),
    decreases *value,
{
    match value {
        Json::Str(s) => write_json_string(s.as_str(), out),
        Json::UInt(n) => push_decimal(out, *n),
        Json::SInt(n) => write_signed(out, *n),
        Json::Bool(b) => {
            if *b {
                out.append("true");
            } else {
                out.append("false");
            }
        },
        Json::Arr(items) => {
            let total: usize = items.len();
            if total == 0 {
                out.append("[]");
                return;
            }
            let inner = text::after("  ", margin);
            proof {
                reveal_strlit("  ");
                assert(inner@ =~= pad(level(margin@) + 1));
                assert(level(inner@) == level(margin@) + 1);
            }
            let ghost values = value@->Arr_0;
            out.append("[\n");
            let ghost head = out@;
            assert(head =~= head + item_lines(values, 0, level(inner@)));
            let mut i: usize = 0;
            while i < total
                invariant
                    i <= total == items@.len(),
                    *value == Json::Arr(*items),
                    values == value@->Arr_0,
                    values.len() == total,
                    inner@ == pad(level(inner@)),
                    out@ == head + item_lines(values, i as nat, level(inner@)),
                decreases total - i,
            {
                assert(decreases_to!(*value => value->Arr_0));
                assert(decreases_to!(*items => items@[i as int]));
                assert(decreases_to!(*value => items@[i as int]));
                out.append(inner.as_str());
                write_at(&items[i], out, inner.as_str());
                if i + 1 < total {
                    out.push(',');
                }
                out.push('\n');
                assert(values[i as int] == items@[i as int]@);
                i += 1;
                assert(out@ =~= head + item_lines(values, i as nat, level(inner@)));
            }
            out.append(margin);
            out.push(']');
            assert(out@ =~= old(out)@ + json_text(value@, level(margin@)));
        },
        Json::Obj(entries) => {
            let total: usize = entries.len();
            if total == 0 {
                out.append("{}");
                return;
            }
            let inner = text::after("  ", margin);
            proof {
                reveal_strlit("  ");
                assert(inner@ =~= pad(level(margin@) + 1));
                assert(level(inner@) == level(margin@) + 1);
            }
            let ghost members = value@->Obj_0;
            out.append("{\n");
            let ghost head = out@;
            assert(head =~= head + entry_lines(members, 0, level(inner@)));
            let mut i: usize = 0;
            while i < total
                invariant
                    i <= total == entries@.len(),
                    *value == Json::Obj(*entries),
                    members == value@->Obj_0,
                    members.len() == total,
                    inner@ == pad(level(inner@)),
                    out@ == head + entry_lines(members, i as nat, level(inner@)),
                decreases total - i,
            {
                assert(decreases_to!(*value => value->Obj_0));
                assert(decreases_to!(*entries => entries@[i as int]));
                assert(decreases_to!(*value => entries@[i as int]));
                assert(decreases_to!(entries@[i as int] => entries@[i as int].1));
                assert(decreases_to!(*value => entries@[i as int].1));
                out.append(inner.as_str());
                write_json_string(entries[i].0, out);
                out.append(": ");
                write_at(&entries[i].1, out, inner.as_str());
                if i + 1 < total {
                    out.push(',');
                }
                out.push('\n');
                assert(members[i as int] == (entries@[i as int].0@, entries@[i as int].1@));
                i += 1;
                assert(out@ =~= head + entry_lines(members, i as nat, level(inner@)));
            }
            out.append(margin);
            out.push('}');
            assert(out@ =~= old(out)@ + json_text(value@, level(margin@)));
        },
    }
}

/// Appends a value that stands `indent` levels deep.
pub fn write_json(value: &Json, out: &mut String, indent: usize)
    ensures
        final(out)@ == old(out)@ + json_text(value@, indent as nat),
{
    let mut margin = String::new();
    write_pad(&mut margin, indent);
    assert(margin@ =~= pad(indent as nat));
    assert(level(margin@) == indent);
    write_at(value, out, margin.as_str());
}

/// The text of a file that holds one value.
pub fn file_text(top: &Json) -> (out: String)
    ensures
        out@ == json_text(top@, 0).push('\n'),
{
    let mut out = String::new();
    write_json(top, &mut out, 0);
    out.push('\n');
    assert(out@ =~= json_text(top@, 0).push('\n'));
    out
}

/// A value to write stands for the value of its own kind that holds the same.
pub proof fn law_json_is_its_value(v: Json)
    ensures
        match v {
            Json::Str(s) => v@ == JsonItem::Str(s@),
            Json::UInt(n) => v@ == JsonItem::UInt(n),
            Json::SInt(n) => v@ == JsonItem::SInt(n),
            Json::Bool(b) => v@ == JsonItem::Bool(b),
            Json::Arr(items) => v@ matches JsonItem::Arr(inside) && inside.len() == items@.len()
                && forall|i: int|
                0 <= i < items@.len() ==> #[trigger] inside[i] == items@[i]@,
            Json::Obj(entries) => v@ matches JsonItem::Obj(inside) && inside.len()
                == entries@.len() && forall|i: int|
                0 <= i < entries@.len() ==> #[trigger] inside[i] == (
                    entries@[i].0@,
                    entries@[i].1@,
                ),
        },
{
}

} // verus!
