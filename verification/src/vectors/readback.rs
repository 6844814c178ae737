//! What the JSON writer writes, a JSON reader reads back.
use crate::fixtures::tinyjson;
use crate::fixtures::tinyjson::Value;
use crate::text;
use crate::vectors::json;
use crate::vectors::json::JsonItem;
use vstd::prelude::*;

verus! {

/// The value that a reader sees. It keeps numbers as they are written.
pub open spec fn seen(v: JsonItem) -> Value
    decreases v,
{
    match v {
        JsonItem::Str(s) => Value::Text(s),
        JsonItem::UInt(n) => Value::Number(text::decimal(n as nat)),
        JsonItem::SInt(n) => Value::Number(
            if n < 0 {
                seq!['-'] + text::decimal((0 - n) as nat)
            } else {
                text::decimal(n as nat)
            },
        ),
        JsonItem::Bool(b) => Value::Bool(b),
        JsonItem::Arr(items) => Value::Array(seen_items(items)),
        JsonItem::Obj(entries) => Value::Object(seen_entries(entries)),
    }
}

/// The values of an array.
pub open spec fn seen_items(items: Seq<JsonItem>) -> Seq<Value>
    decreases items,
{
    if items.len() == 0 {
        Seq::empty()
    } else {
        seen_items(items.drop_last()).push(seen(items.last()))
    }
}

/// The entries of an object.
pub open spec fn seen_entries(entries: Seq<(Seq<char>, JsonItem)>) -> Seq<(Seq<char>, Value)>
    decreases entries,
{
    if entries.len() == 0 {
        Seq::empty()
    } else {
        seen_entries(entries.drop_last()).push((entries.last().0, seen(entries.last().1)))
    }
}

/// `part` stands in `s` at `at`.
pub open spec fn stands(s: Seq<char>, at: int, part: Seq<char>) -> bool {
    &&& 0 <= at
    &&& at + part.len() <= s.len()
    &&& forall|i: int| 0 <= i < part.len() ==> s[at + i] == #[trigger] part[i]
}

proof fn lemma_stands_split(s: Seq<char>, at: int, a: Seq<char>, b: Seq<char>)
    requires
        stands(s, at, a + b),
    ensures
        stands(s, at, a),
        stands(s, at + a.len(), b),
{
    let whole = a + b;
    assert forall|i: int| 0 <= i < a.len() implies s[at + i] == #[trigger] a[i] by {
        assert(whole[i] == a[i]);
    }
    assert forall|i: int| 0 <= i < b.len() implies s[at + a.len() + i] == #[trigger] b[i] by {
        assert(whole[a.len() + i] == b[i]);
        assert(s[at + (a.len() + i)] == whole[a.len() + i]);
    }
}

// ---- texts ----

proof fn lemma_escaped_front(t: Seq<char>)
    requires
        t.len() > 0,
    ensures
        json::escaped_text(t) == json::escaped(t[0]) + json::escaped_text(t.drop_first()),
    decreases t.len(),
{
    if t.len() == 1 {
        assert(t.drop_last() =~= Seq::empty());
        assert(t.drop_first() =~= Seq::empty());
        assert(json::escaped_text(t.drop_last()) =~= Seq::empty());
        assert(json::escaped_text(t.drop_first()) =~= Seq::empty());
        assert(json::escaped_text(t) =~= json::escaped(t[0]));
    } else {
        lemma_escaped_front(t.drop_last());
        assert(t.drop_last().drop_first() =~= t.drop_first().drop_last());
        assert(json::escaped_text(t) =~= json::escaped(t[0]) + json::escaped_text(t.drop_first()));
    }
}

/// What is written for a character is read as that character, whatever follows.
pub proof fn law_character_reads_back(s: Seq<char>, at: int, c: char)
    requires
        stands(s, at, json::escaped(c)),
    ensures
        tinyjson::char_at(s, at) == Some((c, at + json::escaped(c).len())),
        s[at] != '"',
{
    let e = json::escaped(c);
    assert(s[at] == e[0]);
    if e.len() == 2 {
        assert(s[at + 1] == e[1]);
    } else if e.len() == 6 {
        assert(s[at + 1] == e[1]);
        assert(s[at + 2] == e[2]);
        assert(s[at + 3] == e[3]);
        assert(s[at + 4] == e[4]);
        assert(s[at + 5] == e[5]);
        let n = c as nat;
        assert(n < 32);
        assert(tinyjson::hex_digit(text::digit_char(n / 16)) == n / 16);
        assert(tinyjson::hex_digit(text::digit_char(n % 16)) == n % 16);
    }
}

proof fn lemma_text_rest(s: Seq<char>, at: int, t: Seq<char>, read: Seq<char>)
    requires
        stands(s, at, json::escaped_text(t) + seq!['"']),
    ensures
        tinyjson::text_rest(s, at, read) == Some(
            (read + t, at + json::escaped_text(t).len() + 1),
        ),
    decreases t.len(),
{
    let quote = seq!['"'];
    lemma_stands_split(s, at, json::escaped_text(t), quote);
    if t.len() == 0 {
        assert(s[at + 0] == quote[0]);
        assert(read + t =~= read);
    } else {
        let e = json::escaped(t[0]);
        let rest = t.drop_first();
        lemma_escaped_front(t);
        assert(json::escaped_text(t) + quote =~= e + (json::escaped_text(rest) + quote));
        lemma_stands_split(s, at, e, json::escaped_text(rest) + quote);
        law_character_reads_back(s, at, t[0]);
        lemma_text_rest(s, at + e.len(), rest, read.push(t[0]));
        assert(read.push(t[0]) + rest =~= read + t);
    }
}

/// What is written for a text is read as that text.
pub proof fn law_text_reads_back(s: Seq<char>, at: int, t: Seq<char>)
    requires
        stands(s, at, json::string_text(t)),
    ensures
        tinyjson::text_at(s, at) == Some((t, at + json::string_text(t).len())),
        s[at] == '"',
{
    let quote = seq!['"'];
    assert(json::string_text(t) =~= quote + (json::escaped_text(t) + quote));
    lemma_stands_split(s, at, quote, json::escaped_text(t) + quote);
    assert(s[at + 0] == quote[0]);
    lemma_text_rest(s, at + 1, t, Seq::empty());
    assert(Seq::<char>::empty() + t =~= t);
}

// ---- numbers ----

proof fn lemma_number_end(s: Seq<char>, at: int, digits: Seq<char>, k: int)
    requires
        stands(s, at, digits),
        0 <= k <= digits.len(),
        forall|i: int| 0 <= i < digits.len() ==> tinyjson::is_number_char(#[trigger] digits[i]),
        at + digits.len() == s.len() || !tinyjson::is_number_char(s[at + digits.len()]),
    ensures
        tinyjson::number_end(s, at + k) == at + digits.len(),
    decreases digits.len() - k,
{
    if k < digits.len() {
        assert(s[at + k] == digits[k]);
        lemma_number_end(s, at, digits, k + 1);
    }
}

proof fn lemma_digits_end(t: Seq<char>, at: int)
    requires
        0 <= at <= t.len(),
        forall|i: int| at <= i < t.len() ==> '0' <= #[trigger] t[i] <= '9',
    ensures
        tinyjson::digits_end(t, at) == t.len(),
    decreases t.len() - at,
{
    if at < t.len() {
        assert('0' <= t[at] <= '9');
        lemma_digits_end(t, at + 1);
    }
}

/// The written form of a number.
pub open spec fn is_written_number(t: Seq<char>) -> bool {
    &&& t.len() > 0
    &&& '0' <= t[0] <= '9' || (t[0] == '-' && t.len() > 1)
    &&& forall|i: int| 1 <= i < t.len() ==> '0' <= #[trigger] t[i] <= '9'
}

proof fn lemma_number_reads_back(s: Seq<char>, at: int, t: Seq<char>)
    requires
        stands(s, at, t),
        is_written_number(t),
        at + t.len() == s.len() || !tinyjson::is_number_char(s[at + t.len()]),
    ensures
        tinyjson::number_at(s, at) == Some((Value::Number(t), at + t.len())),
        s[at] == t[0],
{
    assert(s[at + 0] == t[0]);
    assert forall|i: int| 0 <= i < t.len() implies tinyjson::is_number_char(#[trigger] t[i]) by {}
    lemma_number_end(s, at, t, 0);
    assert(s.subrange(at, at + t.len()) =~= t) by {
        assert forall|i: int| 0 <= i < t.len() implies s[at + i] == t[i] by {}
    }
    let start = tinyjson::past_sign(t, 0);
    lemma_digits_end(t, start);
}

proof fn lemma_decimal_is_written(n: nat)
    ensures
        is_written_number(text::decimal(n)),
        is_written_number(seq!['-'] + text::decimal(n)),
{
    text::law_decimal_is_the_number(n);
    let digits = text::decimal(n);
    assert('0' <= digits[0] <= '9');
    let t = seq!['-'] + digits;
    assert forall|i: int| 1 <= i < t.len() implies '0' <= #[trigger] t[i] <= '9' by {
        assert(t[i] == digits[i - 1]);
    }
}

// ---- space ----

proof fn lemma_past_space(s: Seq<char>, at: int, end: int)
    requires
        0 <= at <= end < s.len(),
        forall|i: int| at <= i < end ==> tinyjson::is_space(#[trigger] s[i]),
        !tinyjson::is_space(s[end]),
    ensures
        tinyjson::past_space(s, at) == end,
    decreases end - at,
{
    if at < end {
        assert(tinyjson::is_space(s[at]));
        lemma_past_space(s, at + 1, end);
    }
}

/// A value begins behind the space in front of it.
proof fn lemma_value_behind_space(s: Seq<char>, at: int, end: int)
    requires
        0 <= at <= end < s.len(),
        forall|i: int| at <= i < end ==> tinyjson::is_space(#[trigger] s[i]),
        !tinyjson::is_space(s[end]),
    ensures
        tinyjson::value_at(s, at) == tinyjson::value_at(s, end),
{
    lemma_past_space(s, at, end);
    lemma_past_space(s, end, end);
}

/// The first character of what is written for a value.
proof fn lemma_first_char(v: JsonItem, indent: nat)
    ensures
        json::json_text(v, indent).len() > 0,
        ({
            let c = json::json_text(v, indent)[0];
            c == '"' || c == '[' || c == '{' || c == 't' || c == 'f' || c == '-' || '0' <= c <= '9'
        }),
{
    reveal_strlit("true");
    reveal_strlit("false");
    reveal_strlit("[]");
    reveal_strlit("{}");
    reveal_strlit("[\n");
    reveal_strlit("{\n");
    match v {
        JsonItem::UInt(n) => lemma_decimal_is_written(n as nat),
        JsonItem::SInt(n) => {
            if n < 0 {
                lemma_decimal_is_written((-n) as nat);
            } else {
                lemma_decimal_is_written(n as nat);
            }
        },
        _ => {},
    }
}

// ---- arrays ----

proof fn lemma_first_items(s: Seq<char>, at: int, items: Seq<JsonItem>, k: nat, n: nat, indent: nat)
    requires
        k <= n <= items.len(),
        stands(s, at, json::item_lines(items, n, indent)),
    ensures
        stands(s, at, json::item_lines(items, k, indent)),
    decreases n - k,
{
    if k < n {
        let m = (n - 1) as nat;
        let line = json::pad(indent) + json::json_text(items[n - 1], indent) + json::comma(
            n,
            items.len(),
        ) + seq!['\n'];
        assert(json::item_lines(items, n, indent) =~= json::item_lines(items, m, indent) + line);
        lemma_stands_split(s, at, json::item_lines(items, m, indent), line);
        lemma_first_items(s, at, items, k, m, indent);
    }
}

/// The line of item `k`: the margin, the item, and a comma behind all but the last.
proof fn lemma_item_line(s: Seq<char>, at: int, items: Seq<JsonItem>, k: nat, indent: nat)
    requires
        k < items.len(),
        stands(s, at, json::item_lines(items, items.len(), indent)),
    ensures
        ({
            let start = at + json::item_lines(items, k, indent).len();
            let begin = start + 2 * indent;
            let stop = begin + json::json_text(items[k as int], indent).len();
            let next = at + json::item_lines(items, k + 1, indent).len();
            &&& at <= start
            &&& next <= s.len()
            &&& forall|i: int| start <= i < begin ==> #[trigger] s[i] == ' '
            &&& stands(s, begin, json::json_text(items[k as int], indent))
            &&& k + 1 < items.len() ==> s[stop] == ',' && s[stop + 1] == '\n' && next == stop + 2
            &&& k + 1 == items.len() ==> s[stop] == '\n' && next == stop + 1
        }),
{
    let lines = json::item_lines(items, k, indent);
    let margin = json::pad(indent);
    let body = json::json_text(items[k as int], indent);
    let comma = json::comma(k + 1, items.len());
    let end = seq!['\n'];
    lemma_first_items(s, at, items, k + 1, items.len(), indent);
    assert(json::item_lines(items, k + 1, indent) =~= lines + (margin + (body + (comma + end))));
    lemma_stands_split(s, at, lines, margin + (body + (comma + end)));
    let start = at + lines.len();
    lemma_stands_split(s, start, margin, body + (comma + end));
    assert forall|i: int| start <= i < start + margin.len() implies #[trigger] s[i] == ' ' by {
        assert(s[start + (i - start)] == margin[i - start]);
    }
    let begin = start + margin.len();
    lemma_stands_split(s, begin, body, comma + end);
    let stop = begin + body.len();
    lemma_stands_split(s, stop, comma, end);
    assert(s[stop + comma.len() + 0] == end[0]);
    if k + 1 < items.len() {
        assert(s[stop + 0] == comma[0]);
    }
}

/// The parts of an array that holds something: the opening line, the lines inside, and the closing
/// one.
proof fn lemma_array_parts(s: Seq<char>, at: int, items: Seq<JsonItem>, indent: nat)
    requires
        items.len() > 0,
        stands(s, at, json::json_text(JsonItem::Arr(items), indent)),
    ensures
        ({
            let lines = json::item_lines(items, items.len(), indent + 1);
            let end = at + 2 + lines.len();
            let close = end + 2 * indent;
            &&& s[at] == '['
            &&& s[at + 1] == '\n'
            &&& stands(s, at + 2, lines)
            &&& close < s.len()
            &&& forall|i: int| end <= i < close ==> #[trigger] s[i] == ' '
            &&& s[close] == ']'
            &&& close + 1 == at + json::json_text(JsonItem::Arr(items), indent).len()
        }),
{
    reveal_strlit("[\n");
    let open = "[\n"@;
    let lines = json::item_lines(items, items.len(), indent + 1);
    let margin = json::pad(indent);
    let last = seq![']'];
    assert(json::json_text(JsonItem::Arr(items), indent) =~= open + (lines + (margin + last)));
    lemma_stands_split(s, at, open, lines + (margin + last));
    assert(s[at + 0] == open[0]);
    assert(s[at + 1] == open[1]);
    lemma_stands_split(s, at + 2, lines, margin + last);
    let end = at + 2 + lines.len();
    lemma_stands_split(s, end, margin, last);
    assert forall|i: int| end <= i < end + margin.len() implies #[trigger] s[i] == ' ' by {
        assert(s[end + (i - end)] == margin[i - end]);
    }
    assert(s[end + margin.len() + 0] == last[0]);
}

/// A line ends where the next one begins.
proof fn lemma_item_before(s: Seq<char>, at: int, items: Seq<JsonItem>, k: nat, indent: nat)
    requires
        k < items.len(),
        stands(s, at + 2, json::item_lines(items, items.len(), indent)),
        s[at + 1] == '\n',
    ensures
        s[at + 1 + json::item_lines(items, k, indent).len()] == '\n',
{
    if k > 0 {
        lemma_item_line(s, at + 2, items, (k - 1) as nat, indent);
    } else {
        assert(json::item_lines(items, 0, indent).len() == 0);
    }
}

/// Where item `k` of an array stands, and where it goes on: behind a comma, or behind the bracket.
#[verifier::rlimit(40)]
proof fn lemma_item_places(s: Seq<char>, at: int, items: Seq<JsonItem>, k: nat,
    indent: nat) -> (places: (
    int,
    int,
    int,
))
    requires
        k < items.len(),
        stands(s, at, json::json_text(JsonItem::Arr(items), indent)),
    ensures
        ({
            let (begin, stop, next) = places;
            let from = at + 1 + json::item_lines(items, k, indent + 1).len();
            &&& 0 <= from <= begin <= stop <= next < s.len()
            &&& tinyjson::value_at(s, from) == tinyjson::value_at(s, begin)
            &&& stands(s, begin, json::json_text(items[k as int], indent + 1))
            &&& stop == begin + json::json_text(items[k as int], indent + 1).len()
            &&& !tinyjson::is_number_char(s[stop])
            &&& tinyjson::past_space(s, stop) == next
            &&& k + 1 < items.len() ==> s[next] == ',' && next + 1 == at + 1 + json::item_lines(
                items,
                k + 1,
                indent + 1,
            ).len()
            &&& k + 1 == items.len() ==> s[next] == ']' && next + 1 == at + json::json_text(
                JsonItem::Arr(items),
                indent,
            ).len()
        }),
{
    let total = items.len();
    lemma_array_parts(s, at, items, indent);
    let lines = json::item_lines(items, total, indent + 1);
    let base = at + 2;
    lemma_item_line(s, base, items, k, indent + 1);
    let start = base + json::item_lines(items, k, indent + 1).len();
    lemma_item_before(s, at, items, k, indent + 1);
    let from = start - 1;
    assert(s[from] == '\n');
    let begin = start + 2 * (indent + 1);
    let body = json::json_text(items[k as int], indent + 1);
    let stop = begin + body.len();
    lemma_first_char(items[k as int], indent + 1);
    assert(s[begin + 0] == body[0]);
    assert forall|i: int| from <= i < begin implies tinyjson::is_space(#[trigger] s[i]) by {
        if i > from {
            assert(s[i] == ' ');
        }
    }
    lemma_value_behind_space(s, from, begin);
    if k + 1 < total {
        lemma_past_space(s, stop, stop);
        (begin, stop, stop)
    } else {
        let close = base + lines.len() + 2 * indent;
        assert forall|i: int| stop <= i < close implies tinyjson::is_space(#[trigger] s[i]) by {
            if i > stop {
                assert(s[i] == ' ');
            }
        }
        lemma_past_space(s, stop, close);
        (begin, stop, close)
    }
}

/// An item that ends at `stop`: what is read of it, and how it goes on at `next`.
proof fn lemma_element(
    s: Seq<char>,
    from: int,
    stop: int,
    next: int,
    value: Value,
    read: Seq<Value>,
)
    requires
        0 <= from <= next < s.len(),
        tinyjson::value_at(s, from) == Some((value, stop)),
        tinyjson::past_space(s, stop) == next,
    ensures
        s[next] == ',' ==> tinyjson::elements_at(s, from, read) == tinyjson::elements_at(
            s,
            next + 1,
            read.push(value),
        ),
        s[next] == ']' ==> tinyjson::elements_at(s, from, read) == Some(
            (Value::Array(read.push(value)), next + 1),
        ),
{
}

proof fn lemma_elements(s: Seq<char>, at: int, items: Seq<JsonItem>, k: nat, indent: nat)
    requires
        k < items.len(),
        stands(s, at, json::json_text(JsonItem::Arr(items), indent)),
    ensures
        tinyjson::elements_at(
            s,
            at + 1 + json::item_lines(items, k, indent + 1).len(),
            seen_items(items.take(k as int)),
        ) == Some(
            (
                Value::Array(seen_items(items)),
                at + json::json_text(JsonItem::Arr(items), indent).len(),
            ),
        ),
    decreases items, items.len() - k,
{
    let from = at + 1 + json::item_lines(items, k, indent + 1).len();
    let (begin, stop, next) = lemma_item_places(s, at, items, k, indent);
    let item = items[k as int];
    assert(decreases_to!(items => items[k as int]));
    lemma_value(s, begin, item, indent + 1);
    let read = seen_items(items.take(k as int));
    let more = items.take(k as int + 1);
    assert(more.drop_last() =~= items.take(k as int));
    assert(more.last() == item);
    assert(read.push(seen(item)) == seen_items(more));
    lemma_element(s, from, stop, next, seen(item), read);
    if k + 1 < items.len() {
        lemma_elements(s, at, items, k + 1, indent);
    } else {
        assert(more =~= items);
    }
}

// ---- objects ----

proof fn lemma_first_entries(
    s: Seq<char>,
    at: int,
    entries: Seq<(Seq<char>, JsonItem)>,
    k: nat,
    n: nat,
    indent: nat,
)
    requires
        k <= n <= entries.len(),
        stands(s, at, json::entry_lines(entries, n, indent)),
    ensures
        stands(s, at, json::entry_lines(entries, k, indent)),
    decreases n - k,
{
    if k < n {
        let m = (n - 1) as nat;
        let line = json::pad(indent) + json::string_text(entries[n - 1].0) + ": "@
            + json::json_text(entries[n - 1].1, indent) + json::comma(n, entries.len())
            + seq!['\n'];
        assert(json::entry_lines(entries, n, indent) =~= json::entry_lines(entries, m, indent)
            + line);
        lemma_stands_split(s, at, json::entry_lines(entries, m, indent), line);
        lemma_first_entries(s, at, entries, k, m, indent);
    }
}

/// The line of entry `k`: the margin, the name, a colon and a space, the value, and a comma behind
/// all but the last.
proof fn lemma_entry_line(
    s: Seq<char>,
    at: int,
    entries: Seq<(Seq<char>, JsonItem)>,
    k: nat,
    indent: nat,
)
    requires
        k < entries.len(),
        stands(s, at, json::entry_lines(entries, entries.len(), indent)),
    ensures
        ({
            let start = at + json::entry_lines(entries, k, indent).len();
            let name = start + 2 * indent;
            let colon = name + json::string_text(entries[k as int].0).len();
            let begin = colon + 2;
            let stop = begin + json::json_text(entries[k as int].1, indent).len();
            let next = at + json::entry_lines(entries, k + 1, indent).len();
            &&& at <= start
            &&& next <= s.len()
            &&& forall|i: int| start <= i < name ==> #[trigger] s[i] == ' '
            &&& stands(s, name, json::string_text(entries[k as int].0))
            &&& s[colon] == ':'
            &&& s[colon + 1] == ' '
            &&& stands(s, begin, json::json_text(entries[k as int].1, indent))
            &&& k + 1 < entries.len() ==> s[stop] == ',' && s[stop + 1] == '\n' && next == stop + 2
            &&& k + 1 == entries.len() ==> s[stop] == '\n' && next == stop + 1
        }),
{
    reveal_strlit(": ");
    let lines = json::entry_lines(entries, k, indent);
    let margin = json::pad(indent);
    let name = json::string_text(entries[k as int].0);
    let colon = ": "@;
    let body = json::json_text(entries[k as int].1, indent);
    let comma = json::comma(k + 1, entries.len());
    let end = seq!['\n'];
    lemma_first_entries(s, at, entries, k + 1, entries.len(), indent);
    assert(json::entry_lines(entries, k + 1, indent) =~= lines + (margin + (name + (colon + (body
        + (comma + end))))));
    lemma_stands_split(s, at, lines, margin + (name + (colon + (body + (comma + end)))));
    let start = at + lines.len();
    lemma_stands_split(s, start, margin, name + (colon + (body + (comma + end))));
    assert forall|i: int| start <= i < start + margin.len() implies #[trigger] s[i] == ' ' by {
        assert(s[start + (i - start)] == margin[i - start]);
    }
    let named = start + margin.len();
    lemma_stands_split(s, named, name, colon + (body + (comma + end)));
    let mark = named + name.len();
    lemma_stands_split(s, mark, colon, body + (comma + end));
    assert(s[mark + 0] == colon[0]);
    assert(s[mark + 1] == colon[1]);
    let begin = mark + 2;
    lemma_stands_split(s, begin, body, comma + end);
    let stop = begin + body.len();
    lemma_stands_split(s, stop, comma, end);
    assert(s[stop + comma.len() + 0] == end[0]);
    if k + 1 < entries.len() {
        assert(s[stop + 0] == comma[0]);
    }
}

/// The parts of an object that holds something: the opening line, the lines inside, and the closing
/// one.
proof fn lemma_object_parts(s: Seq<char>, at: int, entries: Seq<(Seq<char>, JsonItem)>, indent: nat)
    requires
        entries.len() > 0,
        stands(s, at, json::json_text(JsonItem::Obj(entries), indent)),
    ensures
        ({
            let lines = json::entry_lines(entries, entries.len(), indent + 1);
            let end = at + 2 + lines.len();
            let close = end + 2 * indent;
            &&& s[at] == '{'
            &&& s[at + 1] == '\n'
            &&& stands(s, at + 2, lines)
            &&& close < s.len()
            &&& forall|i: int| end <= i < close ==> #[trigger] s[i] == ' '
            &&& s[close] == '}'
            &&& close + 1 == at + json::json_text(JsonItem::Obj(entries), indent).len()
        }),
{
    reveal_strlit("{\n");
    let open = "{\n"@;
    let lines = json::entry_lines(entries, entries.len(), indent + 1);
    let margin = json::pad(indent);
    let last = seq!['}'];
    assert(json::json_text(JsonItem::Obj(entries), indent) =~= open + (lines + (margin + last)));
    lemma_stands_split(s, at, open, lines + (margin + last));
    assert(s[at + 0] == open[0]);
    assert(s[at + 1] == open[1]);
    lemma_stands_split(s, at + 2, lines, margin + last);
    let end = at + 2 + lines.len();
    lemma_stands_split(s, end, margin, last);
    assert forall|i: int| end <= i < end + margin.len() implies #[trigger] s[i] == ' ' by {
        assert(s[end + (i - end)] == margin[i - end]);
    }
    assert(s[end + margin.len() + 0] == last[0]);
}

/// An entry whose name stands at `name`, whose colon stands at `colon` and whose value ends at
/// `stop`: what is read of it, and how it goes on at `next`.
proof fn lemma_member(
    s: Seq<char>,
    from: int,
    name: int,
    colon: int,
    stop: int,
    next: int,
    entry: (Seq<char>, Value),
    read: Seq<(Seq<char>, Value)>,
)
    requires
        0 <= from <= colon < next < s.len(),
        tinyjson::past_space(s, from) == name,
        tinyjson::text_at(s, name) == Some((entry.0, colon)),
        tinyjson::past_space(s, colon) == colon,
        s[colon] == ':',
        tinyjson::value_at(s, colon + 1) == Some((entry.1, stop)),
        tinyjson::past_space(s, stop) == next,
    ensures
        s[next] == ',' ==> tinyjson::members_at(s, from, read) == tinyjson::members_at(
            s,
            next + 1,
            read.push(entry),
        ),
        s[next] == '}' ==> tinyjson::members_at(s, from, read) == Some(
            (Value::Object(read.push(entry)), next + 1),
        ),
{
    assert((entry.0, entry.1) == entry);
}

/// A line ends where the next one begins.
proof fn lemma_line_before(
    s: Seq<char>,
    at: int,
    entries: Seq<(Seq<char>, JsonItem)>,
    k: nat,
    indent: nat,
)
    requires
        k < entries.len(),
        stands(s, at + 2, json::entry_lines(entries, entries.len(), indent)),
        s[at + 1] == '\n',
    ensures
        s[at + 1 + json::entry_lines(entries, k, indent).len()] == '\n',
{
    if k > 0 {
        lemma_entry_line(s, at + 2, entries, (k - 1) as nat, indent);
    } else {
        assert(json::entry_lines(entries, 0, indent).len() == 0);
    }
}

/// Where the parts of entry `k` of an object stand, and where it goes on: behind a comma, or behind
/// the brace.
#[verifier::rlimit(40)]
proof fn lemma_entry_places(
    s: Seq<char>,
    at: int,
    entries: Seq<(Seq<char>, JsonItem)>,
    k: nat,
    indent: nat,
) -> (places: (int, int, int, int))
    requires
        k < entries.len(),
        stands(s, at, json::json_text(JsonItem::Obj(entries), indent)),
    ensures
        ({
            let (name, colon, stop, next) = places;
            let from = at + 1 + json::entry_lines(entries, k, indent + 1).len();
            &&& 0 <= from <= colon < colon + 2 <= stop <= next < s.len()
            &&& tinyjson::past_space(s, from) == name
            &&& tinyjson::text_at(s, name) == Some((entries[k as int].0, colon))
            &&& tinyjson::past_space(s, colon) == colon
            &&& s[colon] == ':'
            &&& tinyjson::value_at(s, colon + 1) == tinyjson::value_at(s, colon + 2)
            &&& stands(s, colon + 2, json::json_text(entries[k as int].1, indent + 1))
            &&& stop == colon + 2 + json::json_text(entries[k as int].1, indent + 1).len()
            &&& !tinyjson::is_number_char(s[stop])
            &&& tinyjson::past_space(s, stop) == next
            &&& k + 1 < entries.len() ==> s[next] == ',' && next + 1 == at + 1
                + json::entry_lines(entries, k + 1, indent + 1).len()
            &&& k + 1 == entries.len() ==> s[next] == '}' && next + 1 == at + json::json_text(
                JsonItem::Obj(entries),
                indent,
            ).len()
        }),
{
    let total = entries.len();
    lemma_object_parts(s, at, entries, indent);
    let lines = json::entry_lines(entries, total, indent + 1);
    let base = at + 2;
    lemma_entry_line(s, base, entries, k, indent + 1);
    let start = base + json::entry_lines(entries, k, indent + 1).len();
    lemma_line_before(s, at, entries, k, indent + 1);
    let from = start - 1;
    assert(s[from] == '\n');
    let name = start + 2 * (indent + 1);
    law_text_reads_back(s, name, entries[k as int].0);
    assert forall|i: int| from <= i < name implies tinyjson::is_space(#[trigger] s[i]) by {
        if i > from {
            assert(s[i] == ' ');
        }
    }
    lemma_past_space(s, from, name);
    let colon = name + json::string_text(entries[k as int].0).len();
    lemma_past_space(s, colon, colon);
    let begin = colon + 2;
    let body = json::json_text(entries[k as int].1, indent + 1);
    let stop = begin + body.len();
    lemma_first_char(entries[k as int].1, indent + 1);
    assert(s[begin + 0] == body[0]);
    lemma_value_behind_space(s, colon + 1, begin);
    if k + 1 < total {
        lemma_past_space(s, stop, stop);
        (name, colon, stop, stop)
    } else {
        let close = base + lines.len() + 2 * indent;
        assert forall|i: int| stop <= i < close implies tinyjson::is_space(#[trigger] s[i]) by {
            if i > stop {
                assert(s[i] == ' ');
            }
        }
        lemma_past_space(s, stop, close);
        (name, colon, stop, close)
    }
}

proof fn lemma_members(
    s: Seq<char>,
    at: int,
    entries: Seq<(Seq<char>, JsonItem)>,
    k: nat,
    indent: nat,
)
    requires
        k < entries.len(),
        stands(s, at, json::json_text(JsonItem::Obj(entries), indent)),
    ensures
        tinyjson::members_at(
            s,
            at + 1 + json::entry_lines(entries, k, indent + 1).len(),
            seen_entries(entries.take(k as int)),
        ) == Some(
            (
                Value::Object(seen_entries(entries)),
                at + json::json_text(JsonItem::Obj(entries), indent).len(),
            ),
        ),
    decreases entries, entries.len() - k,
{
    let from = at + 1 + json::entry_lines(entries, k, indent + 1).len();
    let (name, colon, stop, next) = lemma_entry_places(s, at, entries, k, indent);
    let (key, item) = entries[k as int];
    assert(decreases_to!(entries => entries[k as int]));
    assert(decreases_to!(entries[k as int] => entries[k as int].1));
    lemma_value(s, colon + 2, item, indent + 1);
    let read = seen_entries(entries.take(k as int));
    let more = entries.take(k as int + 1);
    assert(more.drop_last() =~= entries.take(k as int));
    assert(more.last() == (key, item));
    assert(read.push((key, seen(item))) == seen_entries(more));
    lemma_member(s, from, name, colon, stop, next, (key, seen(item)), read);
    if k + 1 < entries.len() {
        lemma_members(s, at, entries, k + 1, indent);
    } else {
        assert(more =~= entries);
    }
}

// ---- values ----

proof fn lemma_value(s: Seq<char>, at: int, v: JsonItem, indent: nat)
    requires
        stands(s, at, json::json_text(v, indent)),
        at + json::json_text(v, indent).len() == s.len() || !tinyjson::is_number_char(
            s[at + json::json_text(v, indent).len()],
        ),
    ensures
        tinyjson::value_at(s, at) == Some((seen(v), at + json::json_text(v, indent).len())),
    decreases v, 0nat,
{
    let written = json::json_text(v, indent);
    lemma_first_char(v, indent);
    assert(s[at + 0] == written[0]);
    lemma_past_space(s, at, at);
    match v {
        JsonItem::Str(t) => law_text_reads_back(s, at, t),
        JsonItem::UInt(n) => {
            lemma_decimal_is_written(n as nat);
            lemma_number_reads_back(s, at, written);
        },
        JsonItem::SInt(n) => {
            if n < 0 {
                lemma_decimal_is_written((-n) as nat);
            } else {
                lemma_decimal_is_written(n as nat);
            }
            lemma_number_reads_back(s, at, written);
        },
        JsonItem::Bool(_) => {
            reveal_strlit("true");
            reveal_strlit("false");
            assert(s.subrange(at, at + written.len()) =~= written);
        },
        JsonItem::Arr(items) => {
            if items.len() == 0 {
                reveal_strlit("[]");
                assert(s[at + 1] == written[1]);
                lemma_past_space(s, at + 1, at + 1);
            } else {
                assert(decreases_to!(v => items));
                lemma_elements(s, at, items, 0, indent);
                assert(items.take(0) =~= Seq::empty());
                assert(json::item_lines(items, 0, indent + 1).len() == 0);
                lemma_behind_bracket(s, at, items, indent);
            }
        },
        JsonItem::Obj(entries) => {
            if entries.len() == 0 {
                reveal_strlit("{}");
                assert(s[at + 1] == written[1]);
                lemma_past_space(s, at + 1, at + 1);
            } else {
                assert(decreases_to!(v => entries));
                lemma_members(s, at, entries, 0, indent);
                assert(entries.take(0) =~= Seq::empty());
                assert(json::entry_lines(entries, 0, indent + 1).len() == 0);
                lemma_behind_brace(s, at, entries, indent);
            }
        },
    }
}

/// Behind the bracket of an array that holds something, space and something else than the other
/// bracket.
proof fn lemma_behind_bracket(s: Seq<char>, at: int, items: Seq<JsonItem>, indent: nat)
    requires
        items.len() > 0,
        stands(s, at, json::json_text(JsonItem::Arr(items), indent)),
    ensures
        s[at] == '[',
        0 <= tinyjson::past_space(s, at + 1) < s.len(),
        s[tinyjson::past_space(s, at + 1)] != ']',
{
    lemma_array_parts(s, at, items, indent);
    lemma_item_line(s, at + 2, items, 0, indent + 1);
    assert(json::item_lines(items, 0, indent + 1).len() == 0);
    let begin = at + 2 + 2 * (indent + 1);
    lemma_first_char(items[0], indent + 1);
    assert(s[begin + 0] == json::json_text(items[0], indent + 1)[0]);
    assert forall|i: int| at + 1 <= i < begin implies tinyjson::is_space(#[trigger] s[i]) by {
        if i > at + 1 {
            assert(s[i] == ' ');
        }
    }
    lemma_past_space(s, at + 1, begin);
}

/// Behind the brace of an object that holds something, space and a name.
proof fn lemma_behind_brace(
    s: Seq<char>,
    at: int,
    entries: Seq<(Seq<char>, JsonItem)>,
    indent: nat,
)
    requires
        entries.len() > 0,
        stands(s, at, json::json_text(JsonItem::Obj(entries), indent)),
    ensures
        s[at] == '{',
        0 <= tinyjson::past_space(s, at + 1) < s.len(),
        s[tinyjson::past_space(s, at + 1)] != '}',
{
    lemma_object_parts(s, at, entries, indent);
    lemma_entry_line(s, at + 2, entries, 0, indent + 1);
    assert(json::entry_lines(entries, 0, indent + 1).len() == 0);
    let begin = at + 2 + 2 * (indent + 1);
    law_text_reads_back(s, begin, entries[0].0);
    assert forall|i: int| at + 1 <= i < begin implies tinyjson::is_space(#[trigger] s[i]) by {
        if i > at + 1 {
            assert(s[i] == ' ');
        }
    }
    lemma_past_space(s, at + 1, begin);
}

/// A reader sees in a file what was written into it: every value, every name and every number, in
/// their order.
pub proof fn law_file_reads_back(v: JsonItem)
    ensures
        tinyjson::reading(json::json_text(v, 0).push('\n')) == Some(seen(v)),
{
    let file = json::json_text(v, 0).push('\n');
    assert(stands(file, 0, json::json_text(v, 0)));
    lemma_value(file, 0, v, 0);
}

} // verus!
