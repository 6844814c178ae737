//! A small JSON reader: enough for a server's advisories.
//!
//! It reads the value at the beginning of its input and does not look at what follows. Numbers are
//! kept as they are written.
use crate::text::{characters, same_text};
use vstd::prelude::*;

verus! {

/// A JSON value.
#[derive(Debug)]
pub enum Json {
    Null,
    Bool(bool),
    /// The digits of a number, as written.
    Number(String),
    String(String),
    Array(Vec<Json>),
    Object(Vec<(String, Json)>),
}

/// The value that a [`Json`] stands for.
pub enum Value {
    Null,
    Bool(bool),
    Number(Seq<char>),
    Text(Seq<char>),
    Array(Seq<Value>),
    Object(Seq<(Seq<char>, Value)>),
}

pub open spec fn value_of(v: Json) -> Value
    decreases v,
{
    match v {
        Json::Null => Value::Null,
        Json::Bool(b) => Value::Bool(b),
        Json::Number(n) => Value::Number(n@),
        Json::String(s) => Value::Text(s@),
        Json::Array(items) => Value::Array(
            Seq::new(
                items@.len(),
                |i: int|
                    if 0 <= i < items@.len() {
                        value_of(items@[i])
                    } else {
                        Value::Null
                    },
            ),
        ),
        Json::Object(entries) => Value::Object(
            Seq::new(
                entries@.len(),
                |i: int|
                    if 0 <= i < entries@.len() {
                        (entries@[i].0@, value_of(entries@[i].1))
                    } else {
                        (Seq::empty(), Value::Null)
                    },
            ),
        ),
    }
}

impl View for Json {
    type V = Value;

    open spec fn view(&self) -> Value {
        value_of(*self)
    }
}

/// The values that a list stands for.
pub open spec fn values_of(items: Seq<Json>) -> Seq<Value> {
    Seq::new(items.len(), |i: int| items[i]@)
}

/// The entries that a list of names and values stands for.
pub open spec fn members_of(entries: Seq<(String, Json)>) -> Seq<(Seq<char>, Value)> {
    Seq::new(entries.len(), |i: int| (entries[i].0@, entries[i].1@))
}

/// The value under the first key `key`.
pub open spec fn member(entries: Seq<(Seq<char>, Value)>, key: Seq<char>) -> Option<Value>
    decreases entries.len(),
{
    if entries.len() == 0 {
        None
    } else if entries[0].0 == key {
        Some(entries[0].1)
    } else {
        member(entries.drop_first(), key)
    }
}

impl Clone for Json {
    fn clone(&self) -> (copy: Json)
        ensures
            copy@ == self@,
        decreases self,
    {
        match self {
            Json::Null => Json::Null,
            Json::Bool(b) => Json::Bool(*b),
            Json::Number(n) => Json::Number(n.clone()),
            Json::String(s) => Json::String(s.clone()),
            Json::Array(items) => {
                assert(self@->Array_0 =~= values_of(items@));
                Json::array(copy_items(items))
            },
            Json::Object(entries) => {
                assert(self@->Object_0 =~= members_of(entries@));
                Json::object(copy_entries(entries))
            },
        }
    }
}

fn copy_items(items: &Vec<Json>) -> (copy: Vec<Json>)
    ensures
        values_of(copy@) == values_of(items@),
    decreases items,
{
    let mut copy: Vec<Json> = Vec::new();
    let total: usize = items.len();
    let mut i: usize = 0;
    while i < total
        invariant
            i <= total == items@.len(),
            copy@.len() == i,
            forall|j: int| 0 <= j < i ==> (#[trigger] copy@[j])@ == items@[j]@,
        decreases total - i,
    {
        assert(decreases_to!(*items => items@[i as int]));
        copy.push(items[i].clone());
        i += 1;
    }
    assert(values_of(copy@) =~= values_of(items@));
    copy
}

fn copy_entries(entries: &Vec<(String, Json)>) -> (copy: Vec<(String, Json)>)
    ensures
        members_of(copy@) == members_of(entries@),
    decreases entries,
{
    let mut copy: Vec<(String, Json)> = Vec::new();
    let total: usize = entries.len();
    let mut i: usize = 0;
    while i < total
        invariant
            i <= total == entries@.len(),
            copy@.len() == i,
            forall|j: int|
                0 <= j < i ==> (#[trigger] copy@[j]).0@ == entries@[j].0@ && copy@[j].1@
                    == entries@[j].1@,
        decreases total - i,
    {
        assert(decreases_to!(*entries => entries@[i as int]));
        copy.push((entries[i].0.clone(), entries[i].1.clone()));
        i += 1;
    }
    assert(members_of(copy@) =~= members_of(entries@));
    copy
}

impl Json {
    fn array(items: Vec<Json>) -> (v: Json)
        ensures
            v@ == Value::Array(values_of(items@)),
    {
        let ghost inside = items@;
        let v = Json::Array(items);
        assert(v@->Array_0 =~= values_of(inside));
        v
    }

    fn object(entries: Vec<(String, Json)>) -> (v: Json)
        ensures
            v@ == Value::Object(members_of(entries@)),
    {
        let ghost inside = entries@;
        let v = Json::Object(entries);
        assert(v@->Object_0 =~= members_of(inside));
        v
    }

    /// The value under `key`, where this is an object that has it.
    pub fn get(&self, key: &str) -> (v: Option<&Json>)
        ensures
            match (self@, v) {
                (Value::Object(entries), Some(found)) => member(entries, key@) == Some(found@),
                (Value::Object(entries), None) => member(entries, key@) is None,
                (_, found) => found is None,
            },
    {
        match self {
            Json::Object(entries) => {
                let ghost all = self@->Object_0;
                assert(all =~= members_of(entries@));
                let total: usize = entries.len();
                let mut i: usize = 0;
                assert(all.skip(0) =~= all);
                while i < total
                    invariant
                        i <= total == entries@.len(),
                        self@ == Value::Object(all),
                        all == members_of(entries@),
                        member(all, key@) == member(all.skip(i as int), key@),
                    decreases total - i,
                {
                    assert(all.skip(i as int)[0] == (entries@[i as int].0@, entries@[i as int].1@));
                    assert(all.skip(i as int).drop_first() =~= all.skip(i + 1));
                    if same_text(entries[i].0.as_str(), key) {
                        return Some(&entries[i].1);
                    }
                    i += 1;
                }
                None
            },
            _ => None,
        }
    }

    /// The text, where this is one.
    pub fn as_str(&self) -> (s: Option<&str>)
        ensures
            match s {
                Some(t) => self@ == Value::Text(t@),
                None => !(self@ is Text),
            },
    {
        match self {
            Json::String(s) => Some(s.as_str()),
            _ => None,
        }
    }
}

// ---- what is read ----

/// White space between tokens.
pub open spec fn is_space(c: char) -> bool {
    c == ' ' || c == '\t' || c == '\n' || c == '\r' || c == '\u{c}'
}

/// Where the white space at `at` ends.
pub open spec fn past_space(s: Seq<char>, at: int) -> int
    decreases s.len() - at,
{
    if 0 <= at < s.len() && is_space(s[at]) {
        past_space(s, at + 1)
    } else {
        at
    }
}

/// The number that a hexadecimal digit of either case stands for; 16 for anything else.
pub open spec fn hex_digit(c: char) -> nat {
    if '0' <= c <= '9' {
        (c as int - 48) as nat
    } else if 'a' <= c <= 'f' {
        (c as int - 87) as nat
    } else if 'A' <= c <= 'F' {
        (c as int - 55) as nat
    } else {
        16
    }
}

/// The number that four characters stand for: hexadecimal digits, of which a plus sign may take the
/// place of the first.
pub open spec fn code_of(a: char, b: char, c: char, d: char) -> Option<nat> {
    let high: nat = if a == '+' {
        0
    } else {
        hex_digit(a)
    };
    if high < 16 && hex_digit(b) < 16 && hex_digit(c) < 16 && hex_digit(d) < 16 {
        Some(4096 * high + 256 * hex_digit(b) + 16 * hex_digit(c) + hex_digit(d))
    } else {
        None
    }
}

/// The character with a code; the halves of a surrogate pair are none.
pub open spec fn char_with(code: nat) -> Option<char> {
    if code < 0xD800 || 0xE000 <= code <= 0x10FFFF {
        Some(code as char)
    } else {
        None
    }
}

/// The character that a one-letter escape stands for.
pub open spec fn short_escape(c: char) -> Option<char> {
    if c == '"' || c == '\\' || c == '/' {
        Some(c)
    } else if c == 'n' {
        Some('\n')
    } else if c == 't' {
        Some('\t')
    } else if c == 'r' {
        Some('\r')
    } else if c == 'b' {
        Some('\u{8}')
    } else if c == 'f' {
        Some('\u{c}')
    } else {
        None
    }
}

/// The character at `at` inside a text, and where it ends.
pub open spec fn char_at(s: Seq<char>, at: int) -> Option<(char, int)> {
    if s[at] != '\\' {
        Some((s[at], at + 1))
    } else if at + 1 >= s.len() {
        None
    } else if s[at + 1] == 'u' {
        if at + 6 > s.len() {
            None
        } else {
            match code_of(s[at + 2], s[at + 3], s[at + 4], s[at + 5]) {
                None => None,
                Some(code) => match char_with(code) {
                    None => None,
                    Some(c) => Some((c, at + 6)),
                },
            }
        }
    } else {
        match short_escape(s[at + 1]) {
            None => None,
            Some(c) => Some((c, at + 2)),
        }
    }
}

/// The rest of a text from `at` on, behind what was read of it, and where its closing quote ends.
pub open spec fn text_rest(s: Seq<char>, at: int, read: Seq<char>) -> Option<(Seq<char>, int)>
    decreases s.len() - at,
{
    if at < 0 || at >= s.len() {
        None
    } else if s[at] == '"' {
        Some((read, at + 1))
    } else {
        match char_at(s, at) {
            None => None,
            Some((c, end)) => text_rest(s, end, read.push(c)),
        }
    }
}

/// The text at `at`, and where it ends.
pub open spec fn text_at(s: Seq<char>, at: int) -> Option<(Seq<char>, int)> {
    if 0 <= at < s.len() && s[at] == '"' {
        text_rest(s, at + 1, Seq::empty())
    } else {
        None
    }
}

/// A character that a number can be made of.
pub open spec fn is_number_char(c: char) -> bool {
    '0' <= c <= '9' || c == '.' || c == 'e' || c == 'E' || c == '+' || c == '-'
}

/// Where the characters of a number at `at` end.
pub open spec fn number_end(s: Seq<char>, at: int) -> int
    decreases s.len() - at,
{
    if 0 <= at < s.len() && is_number_char(s[at]) {
        number_end(s, at + 1)
    } else {
        at
    }
}

/// Where the decimal digits at `at` end.
pub open spec fn digits_end(s: Seq<char>, at: int) -> int
    decreases s.len() - at,
{
    if 0 <= at < s.len() && '0' <= s[at] <= '9' {
        digits_end(s, at + 1)
    } else {
        at
    }
}

/// Where a sign at `at` ends.
pub open spec fn past_sign(s: Seq<char>, at: int) -> int {
    if 0 <= at < s.len() && (s[at] == '+' || s[at] == '-') {
        at + 1
    } else {
        at
    }
}

/// The characters are a decimal number: a sign perhaps, digits with a point among them perhaps, and
/// an exponent perhaps.
pub open spec fn is_number(t: Seq<char>) -> bool {
    let start = past_sign(t, 0);
    let whole = digits_end(t, start);
    let point = 0 <= whole < t.len() && t[whole] == '.';
    let end = if point {
        digits_end(t, whole + 1)
    } else {
        whole
    };
    let digits = if point {
        end - start - 1
    } else {
        end - start
    };
    &&& digits >= 1
    &&& end == t.len() || (0 <= end < t.len() && (t[end] == 'e' || t[end] == 'E') && {
        let exponent = past_sign(t, end + 1);
        digits_end(t, exponent) > exponent && digits_end(t, exponent) == t.len()
    })
}

/// The number at `at`, and where it ends.
pub open spec fn number_at(s: Seq<char>, at: int) -> Option<(Value, int)> {
    let end = number_end(s, at);
    let digits = s.subrange(at, end);
    if is_number(digits) {
        Some((Value::Number(digits), end))
    } else {
        None
    }
}

/// The value `v`, where its name stands at `at`.
pub open spec fn literal_at(s: Seq<char>, at: int, name: Seq<char>, v: Value) -> Option<
    (Value, int),
> {
    if at + name.len() <= s.len() && s.subrange(at, at + name.len() as int) == name {
        Some((v, at + name.len() as int))
    } else {
        None
    }
}

/// The value at `at`, behind white space, and where it ends.
pub open spec fn value_at(s: Seq<char>, at: int) -> Option<(Value, int)>
    decreases s.len() - at, 2nat,
{
    let p = past_space(s, at);
    if at < 0 || p < at || p >= s.len() {
        None
    } else if s[p] == '{' {
        let q = past_space(s, p + 1);
        if 0 <= q < s.len() && s[q] == '}' {
            Some((Value::Object(Seq::empty()), q + 1))
        } else {
            members_at(s, p + 1, Seq::empty())
        }
    } else if s[p] == '[' {
        let q = past_space(s, p + 1);
        if 0 <= q < s.len() && s[q] == ']' {
            Some((Value::Array(Seq::empty()), q + 1))
        } else {
            elements_at(s, p + 1, Seq::empty())
        }
    } else if s[p] == '"' {
        match text_at(s, p) {
            None => None,
            Some((t, end)) => Some((Value::Text(t), end)),
        }
    } else if s[p] == 't' {
        literal_at(s, p, "true"@, Value::Bool(true))
    } else if s[p] == 'f' {
        literal_at(s, p, "false"@, Value::Bool(false))
    } else if s[p] == 'n' {
        literal_at(s, p, "null"@, Value::Null)
    } else {
        number_at(s, p)
    }
}

/// The object whose entries go on at `at`, behind those that were read.
pub open spec fn members_at(s: Seq<char>, at: int, read: Seq<(Seq<char>, Value)>) -> Option<
    (Value, int),
>
    decreases s.len() - at, 3nat,
{
    match text_at(s, past_space(s, at)) {
        None => None,
        Some((key, end)) => {
            let p = past_space(s, end);
            if at < 0 || p < at || p >= s.len() || s[p] != ':' {
                None
            } else {
                match value_at(s, p + 1) {
                    None => None,
                    Some((v, stop)) => {
                        let q = past_space(s, stop);
                        let entries = read.push((key, v));
                        if q <= p || q >= s.len() {
                            None
                        } else if s[q] == ',' {
                            members_at(s, q + 1, entries)
                        } else if s[q] == '}' {
                            Some((Value::Object(entries), q + 1))
                        } else {
                            None
                        }
                    },
                }
            }
        },
    }
}

/// The array whose items go on at `at`, behind those that were read.
pub open spec fn elements_at(s: Seq<char>, at: int, read: Seq<Value>) -> Option<(Value, int)>
    decreases s.len() - at, 3nat,
{
    match value_at(s, at) {
        None => None,
        Some((v, stop)) => {
            let q = past_space(s, stop);
            let items = read.push(v);
            if q < at || q >= s.len() {
                None
            } else if s[q] == ',' {
                elements_at(s, q + 1, items)
            } else if s[q] == ']' {
                Some((Value::Array(items), q + 1))
            } else {
                None
            }
        },
    }
}

/// The value at the beginning of a text.
pub open spec fn reading(s: Seq<char>) -> Option<Value> {
    match value_at(s, 0) {
        Some((v, _)) => Some(v),
        None => None,
    }
}

// ---- reading ----

/// `char::from_u32` gives the character with a code, and none for a code that no character has.
#[verifier::external_body]
fn char_from_code(code: u32) -> (c: Option<char>)
    ensures
        c == char_with(code as nat),
{
    char::from_u32(code)
}

fn skip_ws(s: &[char], at: usize) -> (p: usize)
    requires
        at <= s@.len(),
    ensures
        p == past_space(s@, at as int),
        at <= p <= s@.len(),
{
    let total: usize = s.len();
    let mut p: usize = at;
    while p < total && (s[p] == ' ' || s[p] == '\t' || s[p] == '\n' || s[p] == '\r' || s[p]
        == '\u{c}')
        invariant
            at <= p <= total == s@.len(),
            past_space(s@, p as int) == past_space(s@, at as int),
        decreases total - p,
    {
        p += 1;
    }
    p
}

fn hex_value(c: char) -> (v: u32)
    ensures
        v == hex_digit(c),
{
    if '0' <= c && c <= '9' {
        c as u32 - 48
    } else if 'a' <= c && c <= 'f' {
        c as u32 - 87
    } else if 'A' <= c && c <= 'F' {
        c as u32 - 55
    } else {
        16
    }
}

fn read_code(a: char, b: char, c: char, d: char) -> (code: Option<u32>)
    ensures
        match code {
            Some(n) => code_of(a, b, c, d) == Some(n as nat),
            None => code_of(a, b, c, d) is None,
        },
{
    let high: u32 = if a == '+' {
        0
    } else {
        hex_value(a)
    };
    let (x, y, z): (u32, u32, u32) = (hex_value(b), hex_value(c), hex_value(d));
    if high < 16 && x < 16 && y < 16 && z < 16 {
        Some(4096 * high + 256 * x + 16 * y + z)
    } else {
        None
    }
}

fn read_short_escape(c: char) -> (r: Option<char>)
    ensures
        r == short_escape(c),
{
    if c == '"' || c == '\\' || c == '/' {
        Some(c)
    } else if c == 'n' {
        Some('\n')
    } else if c == 't' {
        Some('\t')
    } else if c == 'r' {
        Some('\r')
    } else if c == 'b' {
        Some('\u{8}')
    } else if c == 'f' {
        Some('\u{c}')
    } else {
        None
    }
}

/// The character at `at` inside a text, and where it ends.
fn parse_char(s: &[char], at: usize) -> (r: Option<(char, usize)>)
    requires
        at < s@.len(),
    ensures
        match r {
            Some((c, end)) => char_at(s@, at as int) == Some((c, end as int)) && at < end
                <= s@.len(),
            None => char_at(s@, at as int) is None,
        },
{
    let total: usize = s.len();
    if s[at] != '\\' {
        return Some((s[at], at + 1));
    }
    if total - at < 2 {
        return None;
    }
    if s[at + 1] != 'u' {
        return match read_short_escape(s[at + 1]) {
            Some(c) => Some((c, at + 2)),
            None => None,
        };
    }
    if total - at < 6 {
        return None;
    }
    match read_code(s[at + 2], s[at + 3], s[at + 4], s[at + 5]) {
        None => None,
        Some(code) => match char_from_code(code) {
            None => None,
            Some(c) => Some((c, at + 6)),
        },
    }
}

/// The text at `at`, and where it ends.
fn parse_string(s: &[char], at: usize) -> (r: Option<(String, usize)>)
    requires
        at <= s@.len(),
    ensures
        match r {
            Some((t, end)) => text_at(s@, at as int) == Some((t@, end as int)) && at < end
                <= s@.len(),
            None => text_at(s@, at as int) is None,
        },
{
    let total: usize = s.len();
    if at >= total || s[at] != '"' {
        return None;
    }
    let mut out = String::new();
    let mut p: usize = at + 1;
    while p < total
        invariant
            at < p <= total == s@.len(),
            text_at(s@, at as int) == text_rest(s@, p as int, out@),
        decreases total - p,
    {
        if s[p] == '"' {
            return Some((out, p + 1));
        }
        match parse_char(s, p) {
            None => {
                return None;
            },
            Some((c, end)) => {
                out.push(c);
                p = end;
            },
        }
    }
    None
}

fn parse_literal(s: &[char], at: usize, name: &str, v: Json) -> (r: Option<(Json, usize)>)
    requires
        at <= s@.len(),
        name@.len() >= 1,
    ensures
        match r {
            Some((found, end)) => literal_at(s@, at as int, name@, v@) == Some((found@, end as int))
                && at < end <= s@.len(),
            None => literal_at(s@, at as int, name@, v@) is None,
        },
{
    let wanted = characters(name);
    let len: usize = wanted.len();
    let total: usize = s.len();
    if total - at < len {
        return None;
    }
    let mut i: usize = 0;
    while i < len
        invariant
            i <= len == wanted@.len(),
            at + len <= total == s@.len(),
            wanted@ == name@,
            forall|j: int| 0 <= j < i ==> s@[at + j] == name@[j],
        decreases len - i,
    {
        if s[at + i] != wanted[i] {
            assert(s@.subrange(at as int, at + len)[i as int] != name@[i as int]);
            return None;
        }
        i += 1;
    }
    assert(s@.subrange(at as int, at + len) =~= name@);
    Some((v, at + len))
}

fn skip_digits(s: &[char], at: usize) -> (p: usize)
    requires
        at <= s@.len(),
    ensures
        p == digits_end(s@, at as int),
        at <= p <= s@.len(),
{
    let total: usize = s.len();
    let mut p: usize = at;
    while p < total && '0' <= s[p] && s[p] <= '9'
        invariant
            at <= p <= total == s@.len(),
            digits_end(s@, p as int) == digits_end(s@, at as int),
        decreases total - p,
    {
        p += 1;
    }
    p
}

fn skip_sign(s: &[char], at: usize) -> (p: usize)
    requires
        at <= s@.len(),
    ensures
        p == past_sign(s@, at as int),
        at <= p <= s@.len(),
{
    if at < s.len() && (s[at] == '+' || s[at] == '-') {
        at + 1
    } else {
        at
    }
}

fn check_number(t: &[char]) -> (ok: bool)
    ensures
        ok == is_number(t@),
{
    let total: usize = t.len();
    let start: usize = skip_sign(t, 0);
    let whole: usize = skip_digits(t, start);
    let mut end: usize = whole;
    let mut digits: usize = whole - start;
    if whole < total && t[whole] == '.' {
        end = skip_digits(t, whole + 1);
        digits = end - start - 1;
    }
    if digits < 1 {
        return false;
    }
    if end == total {
        return true;
    }
    if t[end] != 'e' && t[end] != 'E' {
        return false;
    }
    let exponent: usize = skip_sign(t, end + 1);
    let stop: usize = skip_digits(t, exponent);
    stop > exponent && stop == total
}

fn parse_number(s: &[char], at: usize) -> (r: Option<(Json, usize)>)
    requires
        at <= s@.len(),
    ensures
        match r {
            Some((v, end)) => number_at(s@, at as int) == Some((v@, end as int)) && at < end
                <= s@.len(),
            None => number_at(s@, at as int) is None,
        },
{
    let total: usize = s.len();
    let mut digits: Vec<char> = Vec::new();
    let mut out = String::new();
    let mut p: usize = at;
    assert(s@.subrange(at as int, at as int) =~= Seq::empty());
    while p < total && (('0' <= s[p] && s[p] <= '9') || s[p] == '.' || s[p] == 'e' || s[p] == 'E'
        || s[p] == '+' || s[p] == '-')
        invariant
            at <= p <= total == s@.len(),
            number_end(s@, p as int) == number_end(s@, at as int),
            digits@ == s@.subrange(at as int, p as int),
            out@ == digits@,
        decreases total - p,
    {
        digits.push(s[p]);
        out.push(s[p]);
        p += 1;
        assert(digits@ =~= s@.subrange(at as int, p as int));
    }
    if check_number(digits.as_slice()) {
        proof {
            if digits@.len() == 0 {
                assert(past_sign(digits@, 0) == 0);
                assert(digits_end(digits@, 0) == 0);
            }
        }
        Some((Json::Number(out), p))
    } else {
        None
    }
}

/// The value at `at`, behind white space, and where it ends.
fn parse_value(s: &[char], at: usize) -> (r: Option<(Json, usize)>)
    requires
        at <= s@.len(),
    ensures
        match r {
            Some((v, end)) => value_at(s@, at as int) == Some((v@, end as int)) && at < end
                <= s@.len(),
            None => value_at(s@, at as int) is None,
        },
    decreases s@.len() - at, 2nat,
{
    let total: usize = s.len();
    let p: usize = skip_ws(s, at);
    if p >= total {
        return None;
    }
    proof {
        reveal_strlit("true");
        reveal_strlit("false");
        reveal_strlit("null");
    }
    match s[p] {
        '{' => parse_object(s, p),
        '[' => parse_array(s, p),
        '"' => match parse_string(s, p) {
            Some((t, end)) => Some((Json::String(t), end)),
            None => None,
        },
        't' => parse_literal(s, p, "true", Json::Bool(true)),
        'f' => parse_literal(s, p, "false", Json::Bool(false)),
        'n' => parse_literal(s, p, "null", Json::Null),
        _ => parse_number(s, p),
    }
}

/// The object whose opening brace is at `at`, and where it ends.
fn parse_object(s: &[char], at: usize) -> (r: Option<(Json, usize)>)
    requires
        at < s@.len(),
        s@[at as int] == '{',
    ensures
        match r {
            Some((v, end)) => value_at(s@, at as int) == Some((v@, end as int)) && at < end
                <= s@.len(),
            None => value_at(s@, at as int) is None,
        },
    decreases s@.len() - at, 1nat,
{
    let total: usize = s.len();
    let mut entries: Vec<(String, Json)> = Vec::new();
    assert(past_space(s@, at as int) == at);
    assert(members_of(entries@) =~= Seq::empty());
    let q: usize = skip_ws(s, at + 1);
    if q < total && s[q] == '}' {
        return Some((Json::object(entries), q + 1));
    }
    let mut from: usize = at + 1;
    loop
        invariant
            at < from <= total == s@.len(),
            value_at(s@, at as int) == members_at(s@, from as int, members_of(entries@)),
        decreases total - from,
    {
        let start: usize = skip_ws(s, from);
        let (key, end) = match parse_string(s, start) {
            Some(found) => found,
            None => {
                return None;
            },
        };
        let colon: usize = skip_ws(s, end);
        if colon >= total || s[colon] != ':' {
            return None;
        }
        let (v, stop) = match parse_value(s, colon + 1) {
            Some(found) => found,
            None => {
                return None;
            },
        };
        let ghost before = members_of(entries@);
        let ghost added = (key@, v@);
        entries.push((key, v));
        assert(members_of(entries@) =~= before.push(added));
        let q: usize = skip_ws(s, stop);
        if q >= total {
            return None;
        }
        if s[q] == ',' {
            from = q + 1;
        } else if s[q] == '}' {
            return Some((Json::object(entries), q + 1));
        } else {
            return None;
        }
    }
}

/// The array whose opening bracket is at `at`, and where it ends.
fn parse_array(s: &[char], at: usize) -> (r: Option<(Json, usize)>)
    requires
        at < s@.len(),
        s@[at as int] == '[',
    ensures
        match r {
            Some((v, end)) => value_at(s@, at as int) == Some((v@, end as int)) && at < end
                <= s@.len(),
            None => value_at(s@, at as int) is None,
        },
    decreases s@.len() - at, 1nat,
{
    let total: usize = s.len();
    let mut items: Vec<Json> = Vec::new();
    assert(past_space(s@, at as int) == at);
    assert(values_of(items@) =~= Seq::empty());
    let q: usize = skip_ws(s, at + 1);
    if q < total && s[q] == ']' {
        return Some((Json::array(items), q + 1));
    }
    let mut from: usize = at + 1;
    loop
        invariant
            at < from <= total == s@.len(),
            value_at(s@, at as int) == elements_at(s@, from as int, values_of(items@)),
        decreases total - from,
    {
        let (v, stop) = match parse_value(s, from) {
            Some(found) => found,
            None => {
                return None;
            },
        };
        let ghost before = values_of(items@);
        let ghost added = v@;
        items.push(v);
        assert(values_of(items@) =~= before.push(added));
        let q: usize = skip_ws(s, stop);
        if q >= total {
            return None;
        }
        if s[q] == ',' {
            from = q + 1;
        } else if s[q] == ']' {
            return Some((Json::array(items), q + 1));
        } else {
            return None;
        }
    }
}

/// Reads the value at the beginning of `input`.
pub fn parse(input: &str) -> (r: Option<Json>)
    ensures
        match r {
            Some(v) => reading(input@) == Some(v@),
            None => reading(input@) is None,
        },
{
    let s = characters(input);
    match parse_value(s.as_slice(), 0) {
        Some((v, _)) => Some(v),
        None => None,
    }
}

// ---- the letters of the grammar ----

/// The escapes of one letter, and no others.
pub proof fn law_short_escapes(c: char)
    ensures
        short_escape('"') == Some('"'),
        short_escape('\\') == Some('\\'),
        short_escape('/') == Some('/'),
        short_escape('b') == Some(8 as char),
        short_escape('f') == Some(12 as char),
        short_escape('n') == Some(10 as char),
        short_escape('r') == Some(13 as char),
        short_escape('t') == Some(9 as char),
        short_escape(c) is Some <==> c == '"' || c == '\\' || c == '/' || c == 'b' || c == 'f' || c
            == 'n' || c == 'r' || c == 't',
{
}

/// An escape of four digits stands for the character whose code they are, the most significant
/// first, in either case.
pub proof fn law_code_of_digits(a: nat, b: nat, c: nat, d: nat)
    requires
        a < 16,
        b < 16,
        c < 16,
        d < 16,
    ensures
        code_of(
            crate::text::digit_char(a),
            crate::text::digit_char(b),
            crate::text::digit_char(c),
            crate::text::digit_char(d),
        ) == Some(((a * 16 + b) * 16 + c) * 16 + d),
        hex_digit('A') == 10,
        hex_digit('F') == 15,
{
}

/// The value under a key is that of the first entry with the key, and there is none where no entry
/// has it.
pub proof fn law_first_of_its_key(entries: Seq<(Seq<char>, Value)>, key: Seq<char>)
    ensures
        match member(entries, key) {
            None => forall|i: int| 0 <= i < entries.len() ==> (#[trigger] entries[i]).0 != key,
            Some(v) => exists|i: int|
                0 <= i < entries.len() && #[trigger] entries[i] == (key, v) && forall|j: int|
                    0 <= j < i ==> (#[trigger] entries[j]).0 != key,
        },
    decreases entries.len(),
{
    if entries.len() > 0 {
        if entries[0].0 == key {
            assert(entries[0] == (key, entries[0].1));
        } else {
            let rest = entries.drop_first();
            law_first_of_its_key(rest, key);
            match member(rest, key) {
                None => {
                    assert forall|i: int| 0 <= i < entries.len() implies (
                    #[trigger] entries[i]).0 != key by {
                        if i > 0 {
                            assert(entries[i] == rest[i - 1]);
                        }
                    }
                },
                Some(v) => {
                    let at = choose|i: int|
                        0 <= i < rest.len() && #[trigger] rest[i] == (key, v) && forall|j: int|
                            0 <= j < i ==> (#[trigger] rest[j]).0 != key;
                    assert(entries[at + 1] == (key, v));
                    assert forall|j: int| 0 <= j < at + 1 implies (#[trigger] entries[j]).0
                        != key by {
                        if j > 0 {
                            assert(entries[j] == rest[j - 1]);
                        }
                    }
                },
            }
        }
    }
}

/// The names of the three values that have names.
pub proof fn law_names_of_values(rest: Seq<char>)
    ensures
        reading("null"@ + rest) == Some(Value::Null),
        reading("true"@ + rest) == Some(Value::Bool(true)),
        reading("false"@ + rest) == Some(Value::Bool(false)),
{
    reveal_strlit("null");
    reveal_strlit("true");
    reveal_strlit("false");
    let (n, t, f) = ("null"@ + rest, "true"@ + rest, "false"@ + rest);
    assert(n.subrange(0, 4) =~= "null"@);
    assert(t.subrange(0, 4) =~= "true"@);
    assert(f.subrange(0, 5) =~= "false"@);
    assert(past_space(n, 0) == 0 && past_space(t, 0) == 0 && past_space(f, 0) == 0);
}

/// A value that was read stands for the value of its own kind that holds the same.
pub proof fn law_json_is_its_value(v: Json)
    ensures
        match v {
            Json::Null => v@ == Value::Null,
            Json::Bool(b) => v@ == Value::Bool(b),
            Json::Number(n) => v@ == Value::Number(n@),
            Json::String(s) => v@ == Value::Text(s@),
            Json::Array(items) => v@ matches Value::Array(inside) && inside.len() == items@.len()
                && forall|i: int|
                0 <= i < items@.len() ==> #[trigger] inside[i] == items@[i]@,
            Json::Object(entries) => v@ matches Value::Object(inside) && inside.len()
                == entries@.len() && forall|i: int|
                0 <= i < entries@.len() ==> #[trigger] inside[i] == (
                    entries@[i].0@,
                    entries@[i].1@,
                ),
        },
{
}

/// The characters between tokens: space, tab, line feed, form feed and carriage return.
pub proof fn law_spaces(c: char)
    ensures
        is_space(c) <==> c as int == 32 || c as int == 9 || c as int == 10 || c as int == 12
            || c as int == 13,
{
}

} // verus!
