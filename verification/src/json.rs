//! JSON values, as `serde_json` builds and writes them.
//!
//! A `serde_json::Value` is known here by its compact text. The text says all there is
//! about a value: no two values are written alike.

use vstd::prelude::*;

use crate::decimal;
use crate::script_text;

verus! {

/// A JSON value of `serde_json`.
#[verifier::external_type_specification]
#[verifier::external_body]
pub struct ExJsonValue(serde_json::Value);

/// An error of `serde_json`.
#[verifier::external_type_specification]
#[verifier::external_body]
pub struct ExJsonError(serde_json::Error);

/// The compact text of a JSON value, as `serde_json::to_string` writes it.
pub uninterp spec fn json_text(value: serde_json::Value) -> Seq<char>;

/// A hexadecimal digit.
pub open spec fn hex_digit(n: int) -> char {
    if n < 10 {
        ('0' as int + n) as char
    } else {
        ('a' as int + n - 10) as char
    }
}

/// What a JSON string literal holds for a character. Control characters, the quote and the
/// backslash are escaped, and nothing else is.
pub open spec fn quoted_char(c: char) -> Seq<char> {
    if c == '"' {
        seq!['\\', '"']
    } else if c == '\\' {
        seq!['\\', '\\']
    } else if c == '\u{8}' {
        seq!['\\', 'b']
    } else if c == '\t' {
        seq!['\\', 't']
    } else if c == '\n' {
        seq!['\\', 'n']
    } else if c == '\u{c}' {
        seq!['\\', 'f']
    } else if c == '\r' {
        seq!['\\', 'r']
    } else if (c as int) < 0x20 {
        seq!['\\', 'u', '0', '0', hex_digit(c as int / 16), hex_digit(c as int % 16)]
    } else {
        seq![c]
    }
}

/// What a JSON string literal holds for a text: each of its characters in turn.
pub open spec fn quoted_chars(text: Seq<char>) -> Seq<char>
    decreases text.len(),
{
    if text.len() == 0 {
        Seq::empty()
    } else {
        quoted_char(text[0]) + quoted_chars(text.drop_first())
    }
}

/// The JSON string literal for `text`.
pub open spec fn quoted(text: Seq<char>) -> Seq<char> {
    seq!['"'] + quoted_chars(text) + seq!['"']
}

/// The JSON object that `serde_json` collects from keys and the texts of their values.
pub uninterp spec fn object_text(fields: Seq<(Seq<char>, Seq<char>)>) -> Seq<char>;

/// An integer in JSON.
pub open spec fn integer_text(n: int) -> Seq<char> {
    if n < 0 {
        seq!['-'] + decimal::decimal_digits((-n) as nat)
    } else {
        decimal::decimal_digits(n as nat)
    }
}

/// A truth value in JSON.
pub open spec fn flag_text(b: bool) -> Seq<char> {
    if b {
        "true"@
    } else {
        "false"@
    }
}

/// Texts with a comma between each and the next.
pub open spec fn comma_separated(items: Seq<Seq<char>>) -> Seq<char>
    decreases items.len(),
{
    if items.len() == 0 {
        Seq::empty()
    } else if items.len() == 1 {
        items[0]
    } else {
        comma_separated(items.drop_last()) + seq![','] + items.last()
    }
}

/// A JSON array of values with these texts.
pub open spec fn list_text(items: Seq<Seq<char>>) -> Seq<char> {
    seq!['['] + comma_separated(items) + seq![']']
}

/// An optional value in JSON, by the text that it has when it is there.
pub open spec fn optional_text(text: Option<Seq<char>>) -> Seq<char> {
    match text {
        Some(t) => t,
        None => "null"@,
    }
}

/// The texts of some values.
pub open spec fn texts(values: Seq<serde_json::Value>) -> Seq<Seq<char>> {
    values.map_values(|v: serde_json::Value| json_text(v))
}

/// The keys of some fields, and the texts of their values.
pub open spec fn field_texts(fields: Seq<(String, serde_json::Value)>) -> Seq<
    (Seq<char>, Seq<char>),
> {
    fields.map_values(|f: (String, serde_json::Value)| (f.0@, json_text(f.1)))
}

/// `serde_json::Value::from` on a string: the value is that string. Its text is the
/// string's literal, in which `serde_json` escapes the quote, the backslash and the control
/// characters, by a letter where JSON has one and else by `\u00` and two hexadecimal digits.
#[verifier::external_body]
pub(crate) fn json_string(text: &str) -> (r: serde_json::Value)
    ensures
        json_text(r) == quoted(text@),
{
    serde_json::Value::from(text)
}

/// `serde_json::Value::from` on an unsigned integer: the value is that number.
#[verifier::external_body]
pub(crate) fn json_unsigned(n: u64) -> (r: serde_json::Value)
    ensures
        json_text(r) == integer_text(n as int),
{
    serde_json::Value::from(n)
}

/// `serde_json::Value::from` on a signed integer: the value is that number.
#[verifier::external_body]
pub(crate) fn json_signed(n: i64) -> (r: serde_json::Value)
    ensures
        json_text(r) == integer_text(n as int),
{
    serde_json::Value::from(n)
}

/// `serde_json::Value::from` on a `bool`: the value is that truth value.
#[verifier::external_body]
pub(crate) fn json_flag(b: bool) -> (r: serde_json::Value)
    ensures
        json_text(r) == flag_text(b),
{
    serde_json::Value::from(b)
}

/// `serde_json::Value::from` on an optional value: the value itself, or `null` when there
/// is none.
#[verifier::external_body]
pub(crate) fn json_optional(value: Option<serde_json::Value>) -> (r: serde_json::Value)
    ensures
        match value {
            Some(v) => r == v,
            None => json_text(r) == "null"@,
        },
{
    serde_json::Value::from(value)
}

/// `serde_json::Value::from` on a vector of values: the array of these values, in order.
#[verifier::external_body]
pub(crate) fn json_list(values: Vec<serde_json::Value>) -> (r: serde_json::Value)
    ensures
        json_text(r) == list_text(texts(values@)),
{
    serde_json::Value::from(values)
}

/// `serde_json::Value::from_iter` on keys with values: the object of these fields.
#[verifier::external_body]
pub(crate) fn json_object(fields: Vec<(String, serde_json::Value)>) -> (r: serde_json::Value)
    ensures
        json_text(r) == object_text(field_texts(fields@)),
{
    serde_json::Value::from_iter(fields)
}

/// `serde_json::to_string` on a value: its compact text. Writing a value cannot fail, since
/// its keys are strings and its own serialization never refuses. The text has JSON's
/// lexical shape: every escape in it is complete, and characters beyond those of numbers,
/// of `true`, `false`, `null` and of punctuation stand in string literals.
#[verifier::external_body]
pub(crate) fn json_to_string(value: &serde_json::Value) -> (r: Result<String, serde_json::Error>)
    ensures
        r is Ok,
        r matches Ok(text) ==> text@ == json_text(*value) && script_text::is_json_like(
            text@,
            false,
        ),
{
    serde_json::to_string(value)
}

/// Appends a field to those of an object in the making.
pub(crate) fn push_field(
    fields: &mut Vec<(String, serde_json::Value)>,
    key: &str,
    value: serde_json::Value,
)
    ensures
        field_texts(final(fields)@) == field_texts(old(fields)@).push((key@, json_text(value))),
{
    fields.push((key.to_string(), value));
    assert(field_texts(fields@) =~= field_texts(old(fields)@).push((key@, json_text(value))));
}

/// The text of an optional string.
pub open spec fn optional_string_text(text: Option<String>) -> Seq<char> {
    optional_text(
        match text {
            Some(t) => Some(quoted(t@)),
            None => None,
        },
    )
}

/// An optional string as a JSON value.
pub(crate) fn json_optional_string(text: &Option<String>) -> (r: serde_json::Value)
    ensures
        json_text(r) == optional_string_text(*text),
{
    json_optional(
        match text {
            Some(t) => Some(json_string(t.as_str())),
            None => None,
        },
    )
}

/// The text of an optional integer.
pub open spec fn optional_integer_text(n: Option<i64>) -> Seq<char> {
    optional_text(
        match n {
            Some(n) => Some(integer_text(n as int)),
            None => None,
        },
    )
}

/// An optional integer as a JSON value.
pub(crate) fn json_optional_signed(n: Option<i64>) -> (r: serde_json::Value)
    ensures
        json_text(r) == optional_integer_text(n),
{
    json_optional(
        match n {
            Some(n) => Some(json_signed(n)),
            None => None,
        },
    )
}

/// A string's characters, as a reader of JSON takes them.
pub open spec fn contents(text: Seq<char>) -> Seq<script_text::Unit> {
    text.map_values(|c: char| script_text::Unit::Content(c as nat))
}

/// Within a string literal, a character reads back as itself.
proof fn lemma_char_reads_back(c: char, tail: Seq<char>)
    ensures
        script_text::read_json(quoted_char(c) + tail, true) == seq![
            script_text::Unit::Content(c as nat),
        ] + script_text::read_json(tail, true),
        script_text::is_json_like(tail, true) ==> script_text::is_json_like(
            quoted_char(c) + tail,
            true,
        ),
{
    let head = quoted_char(c);
    let all = head + tail;
    assert(all[0] == head[0]);
    if c == '"' || c == '\\' || c == '\u{8}' || c == '\t' || c == '\n' || c == '\u{c}' || c
        == '\r' {
        assert(all[1] == head[1]);
        assert(all.skip(2) =~= tail);
    } else if (c as int) < 0x20 {
        let code = c as int;
        assert(all[1] == head[1] && all[2] == head[2] && all[3] == head[3]);
        assert(all[4] == head[4] && all[5] == head[5]);
        assert(script_text::hex_value(all[4]) == Some((code / 16) as nat));
        assert(script_text::hex_value(all[5]) == Some((code % 16) as nat));
        assert(script_text::starts_with_unicode_escape(all));
        assert(all.skip(6) =~= tail);
    } else {
        assert(all.drop_first() =~= tail);
    }
}

/// Within a string literal, the characters of a text read back one by one.
proof fn lemma_chars_read_back(text: Seq<char>, rest: Seq<char>)
    ensures
        script_text::read_json(quoted_chars(text) + rest, true) == contents(text)
            + script_text::read_json(rest, true),
        script_text::is_json_like(rest, true) ==> script_text::is_json_like(
            quoted_chars(text) + rest,
            true,
        ),
    decreases text.len(),
{
    if text.len() == 0 {
        assert(quoted_chars(text) + rest =~= rest);
        assert(contents(text) + script_text::read_json(rest, true) =~= script_text::read_json(
            rest,
            true,
        ));
    } else {
        let tail = quoted_chars(text.drop_first()) + rest;
        lemma_chars_read_back(text.drop_first(), rest);
        lemma_char_reads_back(text[0], tail);
        assert(quoted_chars(text) + rest =~= quoted_char(text[0]) + tail);
        assert(contents(text) + script_text::read_json(rest, true) =~= seq![
            script_text::Unit::Content(text[0] as nat),
        ] + (contents(text.drop_first()) + script_text::read_json(rest, true)));
    }
}

/// Law: a string that is put into a page as a script literal reads back, character by
/// character, as the string that it was, and as nothing besides.
pub proof fn script_literals_read_back(text: Seq<char>)
    ensures
        script_text::read_json(script_text::escaped(quoted(text)), false) == seq![
            script_text::Unit::Structure('"'),
        ] + contents(text) + seq![script_text::Unit::Close],
{
    let close = seq!['"'];
    let inner = quoted_chars(text) + close;
    let all = quoted(text);
    lemma_chars_read_back(text, close);
    assert(close.drop_first() =~= Seq::empty());
    assert(script_text::read_json(close.drop_first(), false) =~= Seq::empty());
    assert(script_text::read_json(close, true) =~= seq![script_text::Unit::Close]);
    assert(script_text::is_json_like(close.drop_first(), false));
    assert(script_text::is_json_like(close, true));
    assert(all[0] == '"');
    assert(all.drop_first() =~= inner);
    assert(script_text::is_json_like(all, false));
    script_text::escaped_text_reads_the_same(all, false);
    assert(script_text::read_json(all, false) =~= seq![script_text::Unit::Structure('"')]
        + contents(text) + seq![script_text::Unit::Close]);
}

/// Law: an integer is written in decimal, with a minus sign when it is negative, and without a
/// needless zero.
pub proof fn integers_are_written_in_decimal(n: int)
    ensures
        n >= 0 ==> decimal::all_digits(integer_text(n)) && integer_text(n).len() > 0
            && decimal::digits_value(integer_text(n)) == n && (integer_text(n)[0] == '0' ==> n
            == 0),
        n < 0 ==> integer_text(n).len() > 1 && integer_text(n)[0] == '-' && decimal::all_digits(
            integer_text(n).drop_first(),
        ) && decimal::digits_value(integer_text(n).drop_first()) == -n && integer_text(n)[1] != '0',
{
    if n < 0 {
        let digits = decimal::decimal_digits((-n) as nat);
        decimal::decimal_digits_denote((-n) as nat);
        decimal::numbers_are_written_without_leading_zeros((-n) as nat);
        assert(integer_text(n).drop_first() =~= digits);
        assert(integer_text(n)[1] == digits[0]);
    } else {
        decimal::decimal_digits_denote(n as nat);
        decimal::numbers_are_written_without_leading_zeros(n as nat);
    }
}

/// Law: no two integers are written alike.
pub proof fn integers_are_told_apart(m: int, n: int)
    requires
        integer_text(m) == integer_text(n),
    ensures
        m == n,
{
    integers_are_written_in_decimal(m);
    integers_are_written_in_decimal(n);
    if m < 0 && n >= 0 {
        assert(decimal::is_digit(integer_text(n)[0]));
    }
    if n < 0 && m >= 0 {
        assert(decimal::is_digit(integer_text(m)[0]));
    }
}

/// Law: what is not there is `null`, which no string, number or truth value is written as.
pub proof fn missing_values_are_null(text: String, n: i64, b: bool)
    ensures
        optional_string_text(None) == "null"@,
        optional_integer_text(None) == "null"@,
        optional_string_text(Some(text)) == quoted(text@),
        optional_integer_text(Some(n)) == integer_text(n as int),
        flag_text(b) == if b { "true"@ } else { "false"@ },
        quoted(text@) != "null"@,
        integer_text(n as int) != "null"@,
{
    reveal_strlit("null");
    assert("null"@[0] == 'n');
    assert(quoted(text@)[0] == '"');
    integers_are_written_in_decimal(n as int);
    if n >= 0 {
        assert(decimal::is_digit(integer_text(n as int)[0]));
    }
}

proof fn lemma_same_code_same_character(a: char, b: char)
    requires
        a as nat == b as nat,
    ensures
        a == b,
{
}

/// Law: no two strings are written alike.
pub proof fn strings_are_told_apart(a: Seq<char>, b: Seq<char>)
    requires
        quoted(a) == quoted(b),
    ensures
        a == b,
{
    script_literals_read_back(a);
    script_literals_read_back(b);
    let read = script_text::read_json(script_text::escaped(quoted(a)), false);
    assert(read.len() == a.len() + 2 && read.len() == b.len() + 2);
    assert forall|i: int| 0 <= i < a.len() implies a[i] == b[i] by {
        assert(read[i + 1] == contents(a)[i]);
        assert(read[i + 1] == contents(b)[i]);
        assert(contents(a)[i] == script_text::Unit::Content(a[i] as nat));
        assert(contents(b)[i] == script_text::Unit::Content(b[i] as nat));
        lemma_same_code_same_character(a[i], b[i]);
    }
    assert(a =~= b);
}

} // verus!
