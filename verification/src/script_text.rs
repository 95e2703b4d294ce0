//! JSON text that is safe to stand between `<script>` tags.
//!
//! Correct JSON is not enough there: an HTML parser ends a script element at the first
//! `</script` it sees, whatever string literal that stands in. The characters that could
//! end the element, or the statement, are written as `\uXXXX` instead, which JSON and
//! JavaScript both read as the character itself.

use vstd::prelude::*;

verus! {

/// `c` could end a script element, start markup, or end a line of older JavaScript.
pub open spec fn is_unsafe(c: char) -> bool {
    c == '<' || c == '>' || c == '&' || c == '\u{2028}' || c == '\u{2029}'
}

/// What is written for one character.
pub open spec fn escaped_char(c: char) -> Seq<char> {
    if c == '<' {
        seq!['\\', 'u', '0', '0', '3', 'c']
    } else if c == '>' {
        seq!['\\', 'u', '0', '0', '3', 'e']
    } else if c == '&' {
        seq!['\\', 'u', '0', '0', '2', '6']
    } else if c == '\u{2028}' {
        seq!['\\', 'u', '2', '0', '2', '8']
    } else if c == '\u{2029}' {
        seq!['\\', 'u', '2', '0', '2', '9']
    } else {
        seq![c]
    }
}

/// What is written for a text: each of its characters in turn.
pub open spec fn escaped(s: Seq<char>) -> Seq<char>
    decreases s.len(),
{
    if s.len() == 0 {
        Seq::empty()
    } else {
        escaped_char(s[0]) + escaped(s.drop_first())
    }
}

/// The value of a hexadecimal digit.
pub open spec fn hex_value(c: char) -> Option<nat> {
    if '0' <= c <= '9' {
        Some((c as int - '0' as int) as nat)
    } else if 'a' <= c <= 'f' {
        Some((c as int - 'a' as int + 10) as nat)
    } else if 'A' <= c <= 'F' {
        Some((c as int - 'A' as int + 10) as nat)
    } else {
        None
    }
}

/// `s` starts with `\u` and four hexadecimal digits.
pub open spec fn starts_with_unicode_escape(s: Seq<char>) -> bool {
    &&& s.len() >= 6
    &&& s[0] == '\\'
    &&& s[1] == 'u'
    &&& hex_value(s[2]) is Some
    &&& hex_value(s[3]) is Some
    &&& hex_value(s[4]) is Some
    &&& hex_value(s[5]) is Some
}

/// The code unit that the leading `\uXXXX` of `s` stands for.
pub open spec fn unicode_escape_value(s: Seq<char>) -> nat {
    4096 * hex_value(s[2])->Some_0 + 256 * hex_value(s[3])->Some_0 + 16 * hex_value(s[4])->Some_0
        + hex_value(s[5])->Some_0
}

/// One thing that a reader of JSON takes from a text.
pub enum Unit {
    /// A character outside any string, the opening quote of a string among them.
    Structure(char),
    /// A code unit of a string's contents.
    Content(nat),
    /// A backslash in a string with a character behind it that means nothing there.
    Strange(char),
    /// The quote that ends a string.
    Close,
    /// A backslash with nothing behind it.
    Cut,
}

/// The code unit that a backslash and this character stand for.
pub open spec fn short_escape_value(c: char) -> Option<nat> {
    if c == '"' {
        Some(0x22)
    } else if c == '\\' {
        Some(0x5c)
    } else if c == '/' {
        Some(0x2f)
    } else if c == 'b' {
        Some(0x08)
    } else if c == 'f' {
        Some(0x0c)
    } else if c == 'n' {
        Some(0x0a)
    } else if c == 'r' {
        Some(0x0d)
    } else if c == 't' {
        Some(0x09)
    } else {
        None
    }
}

/// What a backslash and this character are read as.
pub open spec fn short_escape(c: char) -> Unit {
    match short_escape_value(c) {
        Some(n) => Unit::Content(n),
        None => Unit::Strange(c),
    }
}

/// How JSON reads a text; `inside` says whether the text starts within a string.
pub open spec fn read_json(s: Seq<char>, inside: bool) -> Seq<Unit>
    decreases s.len(),
{
    if s.len() == 0 {
        Seq::empty()
    } else if !inside {
        seq![Unit::Structure(s[0])] + read_json(s.drop_first(), s[0] == '"')
    } else if s[0] == '"' {
        seq![Unit::Close] + read_json(s.drop_first(), false)
    } else if s[0] != '\\' {
        seq![Unit::Content(s[0] as nat)] + read_json(s.drop_first(), true)
    } else if starts_with_unicode_escape(s) {
        seq![Unit::Content(unicode_escape_value(s))] + read_json(s.skip(6), true)
    } else if s.len() >= 2 {
        seq![short_escape(s[1])] + read_json(s.skip(2), true)
    } else {
        seq![Unit::Cut]
    }
}

/// `s` has the lexical shape of JSON as far as strings go: every escape is complete, and
/// the unsafe characters stand in strings only, none of them behind a backslash.
pub open spec fn is_json_like(s: Seq<char>, inside: bool) -> bool
    decreases s.len(),
{
    if s.len() == 0 {
        true
    } else if !inside {
        !is_unsafe(s[0]) && is_json_like(s.drop_first(), s[0] == '"')
    } else if s[0] == '"' {
        is_json_like(s.drop_first(), false)
    } else if s[0] != '\\' {
        is_json_like(s.drop_first(), true)
    } else if starts_with_unicode_escape(s) {
        is_json_like(s.skip(6), true)
    } else {
        s.len() >= 2 && s[1] != 'u' && !is_unsafe(s[1]) && is_json_like(s.skip(2), true)
    }
}

/// Makes JSON text safe to paste between `<script>` tags.
pub fn escape_for_script_element(json: &str) -> (r: String)
    ensures
        r@ == escaped(json@),
{
    let mut out = String::new();
    assert(json@.skip(0) =~= json@);
    for c in it: json.chars()
        invariant
            it.seq() == json@,
            escaped(json@) == out@ + escaped(json@.skip(it.index() as int)),
    {
        let ghost before = out@;
        let ghost rest = json@.skip(it.index() as int);
        proof {
            assert(rest[0] == c);
            assert(rest.drop_first() =~= json@.skip(it.index() + 1));
            reveal_strlit("\\u003c");
            reveal_strlit("\\u003e");
            reveal_strlit("\\u0026");
            reveal_strlit("\\u2028");
            reveal_strlit("\\u2029");
        }
        if c == '<' {
            out.append("\\u003c");
        } else if c == '>' {
            out.append("\\u003e");
        } else if c == '&' {
            out.append("\\u0026");
        } else if c == '\u{2028}' {
            out.append("\\u2028");
        } else if c == '\u{2029}' {
            out.append("\\u2029");
        } else {
            out.push(c);
        }
        assert(out@ =~= before + escaped_char(c));
        assert(escaped(json@) =~= out@ + escaped(json@.skip(it.index() + 1)));
    }
    assert(json@.skip(json@.len() as int) =~= Seq::<char>::empty());
    assert(out@ + Seq::<char>::empty() =~= out@);
    out
}

/// Law: no unsafe character survives, so no text can close the script element that it
/// stands in.
pub proof fn escaped_text_is_safe(s: Seq<char>)
    ensures
        forall|i: int| 0 <= i < escaped(s).len() ==> !is_unsafe(#[trigger] escaped(s)[i]),
    decreases s.len(),
{
    if s.len() > 0 {
        escaped_text_is_safe(s.drop_first());
        let head = escaped_char(s[0]);
        let tail = escaped(s.drop_first());
        assert forall|i: int| 0 <= i < escaped(s).len() implies !is_unsafe(
            #[trigger] escaped(s)[i],
        ) by {
            if i < head.len() {
                assert(escaped(s)[i] == head[i]);
            } else {
                assert(escaped(s)[i] == tail[i - head.len()]);
            }
        }
    }
}

/// Law: a text without unsafe characters is left as it is.
pub proof fn safe_text_is_left_alone(s: Seq<char>)
    requires
        forall|i: int| 0 <= i < s.len() ==> !is_unsafe(#[trigger] s[i]),
    ensures
        escaped(s) == s,
    decreases s.len(),
{
    if s.len() > 0 {
        assert forall|i: int| 0 <= i < s.drop_first().len() implies !is_unsafe(
            #[trigger] s.drop_first()[i],
        ) by {
            assert(s.drop_first()[i] == s[i + 1]);
        }
        safe_text_is_left_alone(s.drop_first());
        assert(!is_unsafe(s[0]));
        assert(escaped(s) =~= s);
    } else {
        assert(escaped(s) =~= s);
    }
}

/// Law: a text is escaped piece by piece.
pub proof fn escaping_distributes(a: Seq<char>, b: Seq<char>)
    ensures
        escaped(a + b) == escaped(a) + escaped(b),
    decreases a.len(),
{
    if a.len() == 0 {
        assert(a + b =~= b);
        assert(escaped(a) + escaped(b) =~= escaped(b));
    } else {
        assert((a + b).drop_first() =~= a.drop_first() + b);
        escaping_distributes(a.drop_first(), b);
        assert(escaped(a + b) =~= escaped(a) + escaped(b));
    }
}

/// Law: escaping twice is escaping once.
pub proof fn escaping_is_idempotent(s: Seq<char>)
    ensures
        escaped(escaped(s)) == escaped(s),
{
    escaped_text_is_safe(s);
    safe_text_is_left_alone(escaped(s));
}

/// Law: the escaping is transparent. What JSON reads from the escaped text is what it
/// reads from the text itself.
pub proof fn escaped_text_reads_the_same(s: Seq<char>, inside: bool)
    requires
        is_json_like(s, inside),
    ensures
        read_json(escaped(s), inside) == read_json(s, inside),
    decreases s.len(),
{
    if s.len() > 0 {
        let e = escaped(s);
        let rest = s.drop_first();
        if !is_unsafe(s[0]) {
            assert(e[0] == s[0]);
            assert(e.drop_first() =~= escaped(rest));
        }
        if !inside {
            escaped_text_reads_the_same(rest, s[0] == '"');
        } else if s[0] == '"' {
            escaped_text_reads_the_same(rest, false);
        } else if s[0] != '\\' {
            escaped_text_reads_the_same(rest, true);
            if is_unsafe(s[0]) {
                let head = escaped_char(s[0]);
                assert(e =~= head + escaped(rest));
                assert(starts_with_unicode_escape(e));
                assert(unicode_escape_value(e) == s[0] as nat);
                assert(e.skip(6) =~= escaped(rest));
            }
        } else if starts_with_unicode_escape(s) {
            escaped_text_reads_the_same(s.skip(6), true);
            lemma_plain_prefix(s, 6);
            assert(starts_with_unicode_escape(e));
            assert(e.skip(6) =~= escaped(s.skip(6)));
        } else {
            escaped_text_reads_the_same(s.skip(2), true);
            assert(!is_unsafe(s[1]));
            lemma_plain_prefix(s, 2);
            assert(e[1] == s[1]);
            assert(e.skip(2) =~= escaped(s.skip(2)));
        }
    }
}

/// A prefix without unsafe characters is written as it is.
proof fn lemma_plain_prefix(s: Seq<char>, n: int)
    requires
        0 <= n <= s.len(),
        forall|i: int| 0 <= i < n ==> !is_unsafe(#[trigger] s[i]),
    ensures
        escaped(s) == s.take(n) + escaped(s.skip(n)),
    decreases n,
{
    if n > 0 {
        let rest = s.drop_first();
        assert forall|i: int| 0 <= i < n - 1 implies !is_unsafe(#[trigger] rest[i]) by {
            assert(rest[i] == s[i + 1]);
        }
        lemma_plain_prefix(rest, n - 1);
        assert(!is_unsafe(s[0]));
        assert(rest.skip(n - 1) =~= s.skip(n));
        assert(seq![s[0]] + rest.take(n - 1) =~= s.take(n));
        assert(escaped(s) =~= s.take(n) + escaped(s.skip(n)));
    } else {
        assert(s.skip(0) =~= s);
        assert(escaped(s) =~= s.take(0) + escaped(s));
    }
}

/// Law: each unsafe character is written as its own escape, and every other as itself.
pub proof fn unsafe_characters_are_written_as_escapes(c: char)
    ensures
        escaped(seq!['<']) == seq!['\\', 'u', '0', '0', '3', 'c'],
        escaped(seq!['>']) == seq!['\\', 'u', '0', '0', '3', 'e'],
        escaped(seq!['&']) == seq!['\\', 'u', '0', '0', '2', '6'],
        escaped(seq!['\u{2028}']) == seq!['\\', 'u', '2', '0', '2', '8'],
        escaped(seq!['\u{2029}']) == seq!['\\', 'u', '2', '0', '2', '9'],
        escaped(seq![c]) == seq![c] <==> (c != '<' && c != '>' && c != '&' && c != '\u{2028}' && c
            != '\u{2029}'),
        is_unsafe(c) <==> (c == '<' || c == '>' || c == '&' || c == '\u{2028}' || c == '\u{2029}'),
{
    lemma_one_character('<');
    lemma_one_character('>');
    lemma_one_character('&');
    lemma_one_character('\u{2028}');
    lemma_one_character('\u{2029}');
    lemma_one_character(c);
    assert(escaped_char('<').len() == 6);
    assert(seq![c].len() == 1);
}

proof fn lemma_one_character(c: char)
    ensures
        escaped(seq![c]) == escaped_char(c),
{
    assert(seq![c].drop_first() =~= Seq::empty());
    assert(escaped(seq![c].drop_first()) =~= Seq::empty());
    assert(escaped(seq![c]) =~= escaped_char(c));
}

} // verus!
