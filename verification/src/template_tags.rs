//! The tags of a well-formed template, read off its source.
//!
//! Text runs to the next two braces, unless a backslash stands before them. A tag runs to
//! its two closing braces; those within its strings and objects are not its own. Comments and
//! raw blocks are passed over whole. Where a bracket in a tag could be read in two ways that
//! end in different places, the tags are not told.

use vstd::prelude::*;

verus! {

/// What a run of characters may consist of.
#[derive(Clone, Copy, PartialEq, Eq, Structural)]
pub enum Class {
    /// White space.
    Gap,
    /// What may stand between the braces of a tag and the sign that says what it is.
    Mark,
    /// The name of a partial.
    Name,
    /// The name of a helper or a decorator.
    Symbol,
    Backslash,
}

/// `c` is a letter, a digit or beyond ASCII.
pub open spec fn is_word_char(c: char) -> bool {
    '0' <= c <= '9' || 'a' <= c <= 'z' || 'A' <= c <= 'Z' || c >= '\u{80}'
}

/// `c` belongs to the class.
pub open spec fn belongs(c: char, class: Class) -> bool {
    let gap = c == ' ' || c == '\t' || c == '\n' || c == '\r';
    match class {
        Class::Gap => gap,
        Class::Mark => gap || c == '~',
        Class::Name => is_word_char(c) || c == '-' || c == '_' || c == '@' || c == '/' || c == '.',
        Class::Symbol => is_word_char(c) || c == '-' || c == '_' || c == '$' || c == ':',
        Class::Backslash => c == '\\',
    }
}

/// Where the run of such characters ends that starts at `i`.
pub open spec fn run_end(s: Seq<char>, i: int, class: Class) -> int
    decreases s.len() - i,
{
    if 0 <= i < s.len() && belongs(s[i], class) {
        run_end(s, i + 1, class)
    } else {
        i
    }
}

/// `c` stands twice at `i`.
pub open spec fn pair_at(s: Seq<char>, i: int, c: char) -> bool {
    0 <= i < s.len() - 1 && s[i] == c && s[i + 1] == c
}

/// Four braces open at `i`: the start or the end of a raw block.
pub open spec fn four_open_at(s: Seq<char>, i: int) -> bool {
    pair_at(s, i, '{') && pair_at(s, i + 2, '{')
}

/// Where the text from `i` on ends: at the next two braces, or the next four when it is that
/// of a raw block. One backslash before braces makes them text, of which it takes two or four;
/// several backslashes do not.
pub open spec fn text_end(s: Seq<char>, i: int, raw: bool) -> int
    decreases s.len() - i,
{
    if i < 0 || i >= s.len() {
        s.len() as int
    } else if s[i] == '\\' {
        let j = run_end(s, i, Class::Backslash);
        if !pair_at(s, j, '{') {
            text_end(s, i + 1, raw)
        } else if j > i + 1 {
            text_end(s, j, raw)
        } else if j == i + 1 {
            text_end(
                s,
                if pair_at(s, i + 3, '{') {
                    i + 5
                } else {
                    i + 3
                },
                raw,
            )
        } else {
            s.len() as int
        }
    } else if (raw && four_open_at(s, i)) || (!raw && pair_at(s, i, '{')) {
        i
    } else {
        text_end(s, i + 1, raw)
    }
}

/// Behind the quote that ends the string whose contents start at `i`.
pub open spec fn string_end(s: Seq<char>, i: int, quote: char) -> int
    decreases s.len() - i,
{
    if i < 0 || i >= s.len() {
        s.len() as int
    } else if s[i] == quote {
        i + 1
    } else if s[i] == '\\' && i + 1 < s.len() {
        string_end(s, i + 2, quote)
    } else {
        string_end(s, i + 1, quote)
    }
}

/// The next `]` from `i` on.
pub open spec fn key_end(s: Seq<char>, i: int) -> int
    decreases s.len() - i,
{
    if i < 0 || i >= s.len() {
        s.len() as int
    } else if s[i] == ']' {
        i
    } else {
        key_end(s, i + 1)
    }
}

/// The next `]` from `i` on that stands in no string.
pub open spec fn list_end(s: Seq<char>, i: int) -> int
    decreases s.len() - i,
{
    if i < 0 || i >= s.len() {
        s.len() as int
    } else if s[i] == ']' {
        i
    } else if s[i] == '"' || s[i] == '\'' {
        let k = string_end(s, i + 1, s[i]);
        if i < k <= s.len() {
            list_end(s, k)
        } else {
            s.len() as int
        }
    } else {
        list_end(s, i + 1)
    }
}

/// The bracket whose contents start at `i` ends in the same place whether it is the key of a
/// path or a list, and holds no braces.
pub open spec fn is_clear_bracket(s: Seq<char>, i: int) -> bool {
    &&& key_end(s, i) < s.len()
    &&& key_end(s, i) == list_end(s, i)
    &&& forall|j: int| i <= j < key_end(s, i) ==> s[j] != '{' && s[j] != '}'
}

/// Behind the two braces that close a tag, read from `i` on with `depth` braces open besides;
/// `None` when that is not told.
pub open spec fn tag_end(s: Seq<char>, i: int, depth: nat) -> Option<int>
    decreases s.len() - i,
{
    if i < 0 || i >= s.len() {
        None
    } else if s[i] == '"' || s[i] == '\'' {
        let k = string_end(s, i + 1, s[i]);
        if i < k <= s.len() {
            tag_end(s, k, depth)
        } else {
            None
        }
    } else if s[i] == '[' {
        let k = key_end(s, i + 1);
        if is_clear_bracket(s, i + 1) && i < k < s.len() {
            tag_end(s, k + 1, depth)
        } else {
            None
        }
    } else if s[i] == '{' {
        tag_end(s, i + 1, depth + 1)
    } else if s[i] != '}' {
        tag_end(s, i + 1, depth)
    } else if depth > 0 {
        tag_end(s, i + 1, (depth - 1) as nat)
    } else if pair_at(s, i, '}') {
        Some(i + 2)
    } else {
        None
    }
}

/// Where two closing braces next stand from `i` on, behind two dashes if `dashed`.
pub open spec fn comment_close(s: Seq<char>, i: int, dashed: bool) -> int
    decreases s.len() - i,
{
    if i < 0 || i >= s.len() {
        s.len() as int
    } else if (dashed && pair_at(s, i, '-') && pair_at(s, i + 2, '}')) || (!dashed && pair_at(
        s,
        i,
        '}',
    )) {
        i
    } else {
        comment_close(s, i + 1, dashed)
    }
}

/// Behind the comment that opens at `i`. One that starts with two dashes ends with two, if
/// the source has such an end at all.
pub open spec fn comment_end(s: Seq<char>, i: int) -> Option<int> {
    let p = run_end(s, i + 3, Class::Gap);
    let long = comment_close(s, p + 2, true);
    let short = comment_close(s, i + 3, false);
    if pair_at(s, p, '-') && long < s.len() {
        Some(long + 4)
    } else if short < s.len() {
        Some(short + 2)
    } else {
        None
    }
}

/// What a tag is.
#[derive(Clone, Copy, PartialEq, Eq, Structural)]
pub enum Kind {
    /// `{{#*inline "name"}}`: the start of an inline partial.
    Inline,
    /// `{{#helper}}`: the start of another block.
    Block,
    /// `{{> name}}`: an inclusion.
    Inclusion,
    /// `{{#> name}}`: an inclusion, and the start of the block that it is given.
    InclusionBlock,
    /// `{{/name}}`: the end of a block.
    End,
    /// A raw block, whole.
    Raw,
    /// An expression or a comment.
    Other,
}

/// Where the sign stands that says what the tag at `i` is, or, behind a `#`, what block it
/// starts.
pub open spec fn sign_index(s: Seq<char>, i: int) -> int {
    let j = run_end(s, i + 2, Class::Mark);
    if 0 <= j < s.len() && s[j] == '#' {
        run_end(s, j + 1, Class::Gap)
    } else {
        j
    }
}

/// The tag at `i` starts with a `#`.
pub open spec fn has_hash(s: Seq<char>, i: int) -> bool {
    let j = run_end(s, i + 2, Class::Mark);
    0 <= j < s.len() && s[j] == '#'
}

/// The tag at `i` has this sign.
pub open spec fn has_sign(s: Seq<char>, i: int, sign: char) -> bool {
    0 <= sign_index(s, i) < s.len() && s[sign_index(s, i)] == sign
}

/// A comment opens at `i`.
pub open spec fn is_comment(s: Seq<char>, i: int) -> bool {
    i + 2 < s.len() && s[i + 2] == '!'
}

/// What the tag at `i` is.
pub open spec fn kind_at(s: Seq<char>, i: int) -> Kind {
    if is_comment(s, i) {
        Kind::Other
    } else if four_open_at(s, i) {
        Kind::Raw
    } else if has_hash(s, i) {
        if has_sign(s, i, '*') {
            Kind::Inline
        } else if has_sign(s, i, '>') {
            Kind::InclusionBlock
        } else {
            Kind::Block
        }
    } else if has_sign(s, i, '>') {
        Kind::Inclusion
    } else if has_sign(s, i, '/') {
        Kind::End
    } else {
        Kind::Other
    }
}

/// Where the name stands that follows the sign of the tag at `i`.
pub open spec fn name_index(s: Seq<char>, i: int) -> int {
    run_end(s, sign_index(s, i) + 1, Class::Gap)
}

/// Between `i` and `j` stands no backslash.
pub open spec fn is_unescaped(s: Seq<char>, i: int, j: int) -> bool {
    forall|k: int| i <= k < j ==> s[k] != '\\'
}

/// The tag at `i` includes a partial by a quoted name with a backslash in it, whose end is
/// not told.
pub open spec fn has_odd_name(s: Seq<char>, i: int) -> bool {
    let p = name_index(s, i);
    &&& kind_at(s, i) == Kind::Inclusion || kind_at(s, i) == Kind::InclusionBlock
    &&& 0 <= p < s.len() && s[p] == '\''
    &&& !is_unescaped(s, p + 1, string_end(s, p + 1, '\''))
}

/// Behind the tag at `i`, or behind the raw block that it starts; `None` when that is not
/// told.
pub open spec fn element_end(s: Seq<char>, i: int) -> Option<int> {
    if is_comment(s, i) {
        comment_end(s, i)
    } else if has_odd_name(s, i) {
        None
    } else if four_open_at(s, i) {
        match tag_end(s, i + 2, 0) {
            Some(e) => tag_end(s, text_end(s, e, true) + 2, 0),
            None => None,
        }
    } else {
        tag_end(s, i + 2, 0)
    }
}

/// The tags from `i` on, each with the place that it stands at; `None` when they are not
/// told.
pub open spec fn tags_from(s: Seq<char>, i: int) -> Option<Seq<(int, Kind)>>
    decreases s.len() - i,
{
    let at = text_end(s, i, false);
    if at >= s.len() {
        Some(Seq::empty())
    } else {
        match element_end(s, at) {
            Some(e) => if i < e <= s.len() {
                match tags_from(s, e) {
                    Some(rest) => Some(seq![(at, kind_at(s, at))] + rest),
                    None => None,
                }
            } else {
                None
            },
            None => None,
        }
    }
}

/// Whether a character belongs to the class.
pub(crate) fn is_of(c: char, class: Class) -> (r: bool)
    ensures
        r == belongs(c, class),
{
    let gap: bool = c == ' ' || c == '\t' || c == '\n' || c == '\r';
    let word: bool = ('0' <= c && c <= '9') || ('a' <= c && c <= 'z') || ('A' <= c && c <= 'Z') || c
        >= '\u{80}';
    match class {
        Class::Gap => gap,
        Class::Mark => gap || c == '~',
        Class::Name => word || c == '-' || c == '_' || c == '@' || c == '/' || c == '.',
        Class::Symbol => word || c == '-' || c == '_' || c == '$' || c == ':',
        Class::Backslash => c == '\\',
    }
}

/// Finds the end of the run that starts at `start`.
pub(crate) fn find_run_end(chars: &Vec<char>, start: usize, class: Class) -> (r: usize)
    requires
        start <= chars@.len(),
    ensures
        r == run_end(chars@, start as int, class),
        start <= r <= chars@.len(),
{
    let mut i: usize = start;
    while i < chars.len() && is_of(chars[i], class)
        invariant
            start <= i <= chars@.len(),
            run_end(chars@, start as int, class) == run_end(chars@, i as int, class),
        decreases chars@.len() - i,
    {
        i = i + 1;
    }
    i
}

/// Whether `c` stands twice at `i`.
fn is_pair(chars: &Vec<char>, i: usize, c: char) -> (r: bool)
    requires
        i <= chars@.len(),
    ensures
        r == pair_at(chars@, i as int, c),
{
    chars.len() - i >= 2 && chars[i] == c && chars[i + 1] == c
}

/// Whether four braces open at `i`.
fn is_four_open(chars: &Vec<char>, i: usize) -> (r: bool)
    requires
        i <= chars@.len(),
    ensures
        r == four_open_at(chars@, i as int),
{
    let n: usize = chars.len();
    n - i >= 2 && is_pair(chars, i, '{') && is_pair(chars, i + 2, '{')
}

/// Finds the end of the text from `start` on.
fn find_text_end(chars: &Vec<char>, start: usize, raw: bool) -> (r: usize)
    requires
        start <= chars@.len(),
    ensures
        r == text_end(chars@, start as int, raw),
        start <= r <= chars@.len(),
{
    let n: usize = chars.len();
    let mut i: usize = start;
    while i < n
        invariant
            start <= i <= n,
            n == chars@.len(),
            text_end(chars@, start as int, raw) == text_end(chars@, i as int, raw),
        decreases n - i,
    {
        if chars[i] == '\\' {
            let j: usize = find_run_end(chars, i, Class::Backslash);
            if !is_pair(chars, j, '{') {
                i = i + 1;
            } else if j > i + 1 {
                i = j;
            } else {
                assert(j == i + 1);
                if is_pair(chars, i + 3, '{') {
                    i = i + 5;
                } else {
                    i = i + 3;
                }
            }
        } else if (raw && is_four_open(chars, i)) || (!raw && is_pair(chars, i, '{')) {
            return i;
        } else {
            i = i + 1;
        }
    }
    n
}

/// Finds the end of the string whose contents start at `start`.
pub(crate) fn find_string_end(chars: &Vec<char>, start: usize, quote: char) -> (r: usize)
    requires
        start <= chars@.len(),
    ensures
        r == string_end(chars@, start as int, quote),
        start <= r <= chars@.len(),
{
    let n: usize = chars.len();
    let mut i: usize = start;
    while i < n
        invariant
            start <= i <= n,
            n == chars@.len(),
            string_end(chars@, start as int, quote) == string_end(chars@, i as int, quote),
        decreases n - i,
    {
        if chars[i] == quote {
            return i + 1;
        }
        if chars[i] == '\\' && n - i > 1 {
            i = i + 2;
        } else {
            i = i + 1;
        }
    }
    n
}

/// Finds the end of the bracket whose contents start at `start`, when it is clear.
fn find_bracket_end(chars: &Vec<char>, start: usize) -> (r: Option<usize>)
    requires
        start <= chars@.len(),
    ensures
        match r {
            Some(k) => is_clear_bracket(chars@, start as int) && k == key_end(
                chars@,
                start as int,
            ) && start <= k < chars@.len(),
            None => !is_clear_bracket(chars@, start as int),
        },
{
    let n: usize = chars.len();
    let mut k: usize = start;
    while k < n && chars[k] != ']'
        invariant
            start <= k <= n,
            n == chars@.len(),
            key_end(chars@, start as int) == key_end(chars@, k as int),
            forall|j: int| start <= j < k ==> chars@[j] != '{' && chars@[j] != '}',
        decreases n - k,
    {
        if chars[k] == '{' || chars[k] == '}' {
            proof {
                lemma_key_end_from(chars@, k + 1);
                assert(chars@[k as int] == '{' || chars@[k as int] == '}');
                assert(k < key_end(chars@, start as int) || key_end(chars@, start as int)
                    >= chars@.len());
            }
            return None;
        }
        k = k + 1;
    }
    let mut i: usize = start;
    while i < n && chars[i] != ']'
        invariant
            start <= i <= n,
            n == chars@.len(),
            list_end(chars@, start as int) == list_end(chars@, i as int),
        decreases n - i,
    {
        if chars[i] == '"' || chars[i] == '\'' {
            i = find_string_end(chars, i + 1, chars[i]);
        } else {
            i = i + 1;
        }
    }
    if k < n && i == k {
        Some(k)
    } else {
        None
    }
}

proof fn lemma_key_end_from(s: Seq<char>, i: int)
    requires
        0 <= i <= s.len(),
    ensures
        i <= key_end(s, i) <= s.len(),
    decreases s.len() - i,
{
    if i < s.len() && s[i] != ']' {
        lemma_key_end_from(s, i + 1);
    }
}

/// Finds the end of a tag.
fn find_tag_end(chars: &Vec<char>, start: usize) -> (r: Option<usize>)
    requires
        start <= chars@.len(),
    ensures
        match r {
            Some(e) => tag_end(chars@, start as int, 0) == Some(e as int) && start < e
                <= chars@.len(),
            None => tag_end(chars@, start as int, 0) is None,
        },
{
    let n: usize = chars.len();
    let mut i: usize = start;
    let mut depth: usize = 0;
    while i < n
        invariant
            start <= i <= n,
            depth <= i,
            n == chars@.len(),
            tag_end(chars@, start as int, 0) == tag_end(chars@, i as int, depth as nat),
        decreases n - i,
    {
        let c: char = chars[i];
        if c == '"' || c == '\'' {
            i = find_string_end(chars, i + 1, c);
        } else if c == '[' {
            match find_bracket_end(chars, i + 1) {
                Some(k) => {
                    i = k + 1;
                },
                None => {
                    return None;
                },
            }
        } else if c == '{' {
            depth = depth + 1;
            i = i + 1;
        } else if c != '}' {
            i = i + 1;
        } else if depth > 0 {
            depth = depth - 1;
            i = i + 1;
        } else if is_pair(chars, i, '}') {
            return Some(i + 2);
        } else {
            return None;
        }
    }
    None
}

/// Finds where a comment closes.
fn find_comment_close(chars: &Vec<char>, start: usize, dashed: bool) -> (r: usize)
    requires
        start <= chars@.len(),
    ensures
        r == comment_close(chars@, start as int, dashed),
        start <= r <= chars@.len(),
        r < chars@.len() ==> (if dashed {
            r + 4 <= chars@.len()
        } else {
            r + 2 <= chars@.len()
        }),
{
    let n: usize = chars.len();
    let mut i: usize = start;
    while i < n
        invariant
            start <= i <= n,
            n == chars@.len(),
            comment_close(chars@, start as int, dashed) == comment_close(chars@, i as int, dashed),
        decreases n - i,
    {
        if dashed {
            if is_pair(chars, i, '-') && is_pair(chars, i + 2, '}') {
                return i;
            }
        } else if is_pair(chars, i, '}') {
            return i;
        }
        i = i + 1;
    }
    n
}

/// Finds the end of the comment that opens at `i`.
fn find_comment_end(chars: &Vec<char>, i: usize) -> (r: Option<usize>)
    requires
        i + 3 <= chars@.len(),
    ensures
        match r {
            Some(e) => comment_end(chars@, i as int) == Some(e as int) && i < e <= chars@.len(),
            None => comment_end(chars@, i as int) is None,
        },
{
    let n: usize = chars.len();
    let p: usize = find_run_end(chars, i + 3, Class::Gap);
    if n - p >= 2 && is_pair(chars, p, '-') {
        let long: usize = find_comment_close(chars, p + 2, true);
        if long < chars.len() {
            return Some(long + 4);
        }
    }
    let short: usize = find_comment_close(chars, i + 3, false);
    if short < chars.len() {
        Some(short + 2)
    } else {
        None
    }
}

/// Finds the sign of the tag at `i`, and whether a `#` stands before it.
fn find_sign(chars: &Vec<char>, i: usize) -> (r: (usize, bool))
    requires
        i + 2 <= chars@.len(),
    ensures
        r.0 == sign_index(chars@, i as int),
        i + 2 <= r.0 <= chars@.len(),
        r.1 == has_hash(chars@, i as int),
{
    let n: usize = chars.len();
    let j: usize = find_run_end(chars, i + 2, Class::Mark);
    if j < n && chars[j] == '#' {
        (find_run_end(chars, j + 1, Class::Gap), true)
    } else {
        (j, false)
    }
}

/// Tells what the tag at `i` is.
fn find_kind(chars: &Vec<char>, i: usize) -> (r: Kind)
    requires
        i + 2 <= chars@.len(),
        pair_at(chars@, i as int, '{'),
    ensures
        r == kind_at(chars@, i as int),
{
    let n: usize = chars.len();
    if n - i > 2 && chars[i + 2] == '!' {
        return Kind::Other;
    }
    if is_four_open(chars, i) {
        return Kind::Raw;
    }
    let (j, hash) = find_sign(chars, i);
    if hash {
        if j < n && chars[j] == '*' {
            Kind::Inline
        } else if j < n && chars[j] == '>' {
            Kind::InclusionBlock
        } else {
            Kind::Block
        }
    } else if j < n && chars[j] == '>' {
        Kind::Inclusion
    } else if j < n && chars[j] == '/' {
        Kind::End
    } else {
        Kind::Other
    }
}

/// Finds the name that follows the sign of the tag at `i`.
pub(crate) fn find_name(chars: &Vec<char>, i: usize) -> (r: usize)
    requires
        i + 2 <= chars@.len(),
        sign_index(chars@, i as int) < chars@.len(),
    ensures
        r == name_index(chars@, i as int),
        i + 2 <= r <= chars@.len(),
{
    let n: usize = chars.len();
    let (j, _) = find_sign(chars, i);
    assert(j < n);
    find_run_end(chars, j + 1, Class::Gap)
}

/// Whether no backslash stands between `start` and `end`.
pub(crate) fn is_free_of_backslashes(chars: &Vec<char>, start: usize, end: usize) -> (r: bool)
    requires
        end <= chars@.len(),
    ensures
        r == is_unescaped(chars@, start as int, end as int),
{
    let mut i: usize = start;
    while i < end
        invariant
            start <= i,
            end <= chars@.len(),
            i <= end || i == start,
            forall|k: int| start <= k < i ==> chars@[k] != '\\',
        decreases end - i,
    {
        if chars[i] == '\\' {
            assert(chars@[i as int] == '\\');
            return false;
        }
        i = i + 1;
    }
    true
}

/// Finds the end of the tag at `i`, or of the raw block that it starts.
fn find_element_end(chars: &Vec<char>, i: usize) -> (r: Option<usize>)
    requires
        pair_at(chars@, i as int, '{'),
    ensures
        match r {
            Some(e) => element_end(chars@, i as int) == Some(e as int) && i < e <= chars@.len(),
            None => element_end(chars@, i as int) is None,
        },
{
    let n: usize = chars.len();
    if n - i > 2 && chars[i + 2] == '!' {
        return find_comment_end(chars, i);
    }
    let kind: Kind = find_kind(chars, i);
    if kind == Kind::Inclusion || kind == Kind::InclusionBlock {
        let p: usize = find_name(chars, i);
        if p < n && chars[p] == '\'' {
            let e: usize = find_string_end(chars, p + 1, '\'');
            if !is_free_of_backslashes(chars, p + 1, e) {
                return None;
            }
        }
    }
    assert(!has_odd_name(chars@, i as int));
    if is_four_open(chars, i) {
        match find_tag_end(chars, i + 2) {
            Some(e) => {
                let k: usize = find_text_end(chars, e, true);
                if n - k < 2 {
                    return None;
                }
                find_tag_end(chars, k + 2)
            },
            None => None,
        }
    } else {
        find_tag_end(chars, i + 2)
    }
}

/// The tags that were found.
pub open spec fn seen(found: Seq<(usize, Kind)>) -> Seq<(int, Kind)> {
    found.map_values(|tag: (usize, Kind)| (tag.0 as int, tag.1))
}

/// Finds the tags of a source.
pub(crate) fn find_tags(chars: &Vec<char>) -> (r: Option<Vec<(usize, Kind)>>)
    ensures
        match r {
            Some(found) => tags_from(chars@, 0) == Some(seen(found@)),
            None => tags_from(chars@, 0) is None,
        },
        r matches Some(found) ==> forall|k: int|
            0 <= k < found@.len() ==> pair_at(chars@, (#[trigger] found@[k]).0 as int, '{')
                && found@[k].1 == kind_at(chars@, found@[k].0 as int),
{
    let n: usize = chars.len();
    let mut found: Vec<(usize, Kind)> = Vec::new();
    let mut i: usize = 0;
    let mut at: usize = find_text_end(chars, 0, false);
    proof {
        if let Some(all) = tags_from(chars@, 0) {
            assert(seen(found@) + all =~= all);
        }
    }
    while at < n
        invariant
            n == chars@.len(),
            i <= n,
            at == text_end(chars@, i as int, false),
            i <= at <= n,
            forall|k: int|
                0 <= k < found@.len() ==> pair_at(chars@, (#[trigger] found@[k]).0 as int, '{')
                    && found@[k].1 == kind_at(chars@, found@[k].0 as int),
            tags_from(chars@, 0) == (match tags_from(chars@, i as int) {
                Some(rest) => Some(seen(found@) + rest),
                None => None,
            }),
        decreases n - i,
    {
        proof {
            lemma_text_stops(chars@, i as int);
        }
        let kind: Kind = find_kind(chars, at);
        match find_element_end(chars, at) {
            Some(e) => {
                let ghost before = seen(found@);
                found.push((at, kind));
                proof {
                    let one = seq![(at as int, kind)];
                    assert(seen(found@) =~= before + one);
                    if let Some(rest) = tags_from(chars@, e as int) {
                        assert(before + (one + rest) =~= seen(found@) + rest);
                    }
                }
                i = e;
                at = find_text_end(chars, i, false);
            },
            None => {
                return None;
            },
        }
    }
    assert(seen(found@) + Seq::<(int, Kind)>::empty() =~= seen(found@));
    Some(found)
}

/// Whether an inclusion may open at `i`.
pub(crate) fn opens_inclusion(chars: &Vec<char>, i: usize) -> (r: bool)
    requires
        i <= chars@.len(),
    ensures
        r == (pair_at(chars@, i as int, '{') && has_sign(chars@, i as int, '>')),
{
    if !is_pair(chars, i, '{') {
        return false;
    }
    let (j, _) = find_sign(chars, i);
    j < chars.len() && chars[j] == '>'
}

/// Every tag stands at two braces, and is what stands there.
pub proof fn tags_are_where_they_are_told(s: Seq<char>, i: int, k: int)
    requires
        0 <= i <= s.len(),
        tags_from(s, i) matches Some(tags) && 0 <= k < tags.len(),
    ensures
        ({
            let tag = tags_from(s, i)->Some_0[k];
            pair_at(s, tag.0, '{') && tag.1 == kind_at(s, tag.0)
        }),
    decreases s.len() - i,
{
    let at = text_end(s, i, false);
    lemma_text_stops(s, i);
    if k > 0 {
        let e = element_end(s, at)->Some_0;
        tags_are_where_they_are_told(s, e, k - 1);
    }
}

/// Text that ends before the source does ends at two braces.
proof fn lemma_text_stops(s: Seq<char>, i: int)
    requires
        0 <= i <= s.len(),
        text_end(s, i, false) < s.len(),
    ensures
        pair_at(s, text_end(s, i, false), '{'),
    decreases s.len() - i,
{
    if s[i] == '\\' {
        let j = run_end(s, i, Class::Backslash);
        if !pair_at(s, j, '{') {
            lemma_text_stops(s, i + 1);
        } else if j > i + 1 {
            lemma_text_stops(s, j);
        } else if pair_at(s, i + 3, '{') {
            lemma_text_stops(s, i + 5);
        } else {
            lemma_text_stops(s, i + 3);
        }
    } else if !pair_at(s, i, '{') {
        lemma_text_stops(s, i + 1);
    }
}

/// Law: white space is blanks, tabs and line ends. A tag's sign may stand behind white space
/// and tildes.
pub proof fn classes_hold_their_characters(c: char)
    ensures
        belongs(c, Class::Gap) <==> (c == ' ' || c == '\t' || c == '\n' || c == '\r'),
        belongs(c, Class::Mark) <==> (c == ' ' || c == '\t' || c == '\n' || c == '\r' || c == '~'),
        belongs(c, Class::Backslash) <==> c == '\\',
        '0' <= c <= '9' || 'a' <= c <= 'z' || 'A' <= c <= 'Z' || c >= '\u{80}' || c == '-' || c
            == '_' || c == '@' || c == '/' || c == '.' <==> belongs(c, Class::Name),
        '0' <= c <= '9' || 'a' <= c <= 'z' || 'A' <= c <= 'Z' || c >= '\u{80}' || c == '-' || c
            == '_' || c == '$' || c == ':' <==> belongs(c, Class::Symbol),
{
}

/// Law: a run ends at the first character that is not of its class, or where the source ends.
pub proof fn runs_end_at_the_first_other_character(s: Seq<char>, i: int, class: Class)
    requires
        0 <= i <= s.len(),
    ensures
        i <= run_end(s, i, class) <= s.len(),
        forall|j: int| i <= j < run_end(s, i, class) ==> belongs(#[trigger] s[j], class),
        run_end(s, i, class) < s.len() ==> !belongs(s[run_end(s, i, class)], class),
    decreases s.len() - i,
{
    if i < s.len() && belongs(s[i], class) {
        runs_end_at_the_first_other_character(s, i + 1, class);
    }
}

/// Law: text without backslashes runs to the next two braces, or to the end of the source.
pub proof fn text_runs_to_the_next_braces(s: Seq<char>, i: int, j: int)
    requires
        0 <= i <= j <= s.len(),
        forall|k: int| i <= k < j ==> s[k] != '\\',
        forall|k: int| i <= k < j ==> !(#[trigger] s[k] == '{' && k + 1 < s.len() && s[k + 1] == '{'),
        j == s.len() || (j + 1 < s.len() && s[j] == '{' && s[j + 1] == '{'),
    ensures
        text_end(s, i, false) == j,
    decreases j - i,
{
    if i < j {
        assert(s[i] != '\\');
        assert(!pair_at(s, i, '{'));
        text_runs_to_the_next_braces(s, i + 1, j);
    }
}

/// Law: braces behind one backslash are text. Braces behind several are a tag, and a backslash
/// that no braces follow is a character like others.
pub proof fn one_backslash_makes_braces_text(s: Seq<char>, i: int, raw: bool)
    requires
        0 <= i < s.len(),
        s[i] == '\\',
    ensures
        i + 2 < s.len() && s[i + 1] == '{' && s[i + 2] == '{' ==> text_end(s, i, raw) == text_end(
            s,
            if i + 4 < s.len() && s[i + 3] == '{' && s[i + 4] == '{' {
                i + 5
            } else {
                i + 3
            },
            raw,
        ),
        i + 1 == s.len() || (s[i + 1] != '{' && s[i + 1] != '\\') ==> text_end(s, i, raw)
            == text_end(s, i + 1, raw),
        i + 3 < s.len() && s[i + 1] == '\\' && s[i + 2] == '{' && s[i + 3] == '{' ==> text_end(
            s,
            i,
            raw,
        ) == text_end(s, i + 2, raw),
{
    reveal_with_fuel(run_end, 3);
}

/// Law: text stops where it is told to: at two braces, or four in a raw block, and nowhere
/// before where it starts.
pub proof fn text_stops_at_braces(s: Seq<char>, i: int, raw: bool)
    requires
        0 <= i <= s.len(),
    ensures
        i <= text_end(s, i, raw) <= s.len(),
        text_end(s, i, raw) < s.len() ==> {
            let e = text_end(s, i, raw);
            &&& e + 1 < s.len() && s[e] == '{' && s[e + 1] == '{'
            &&& raw ==> e + 3 < s.len() && s[e + 2] == '{' && s[e + 3] == '{'
        },
    decreases s.len() - i,
{
    if i < s.len() {
        if s[i] == '\\' {
            let j = run_end(s, i, Class::Backslash);
            runs_end_at_the_first_other_character(s, i, Class::Backslash);
            if !pair_at(s, j, '{') {
                text_stops_at_braces(s, i + 1, raw);
            } else if j > i + 1 {
                text_stops_at_braces(s, j, raw);
            } else if pair_at(s, i + 3, '{') {
                text_stops_at_braces(s, i + 5, raw);
            } else {
                text_stops_at_braces(s, i + 3, raw);
            }
        } else if !((raw && four_open_at(s, i)) || (!raw && pair_at(s, i, '{'))) {
            text_stops_at_braces(s, i + 1, raw);
        }
    }
}

/// Law: a string ends behind its next quote. A backslash in it takes the character that follows
/// along.
pub proof fn strings_end_behind_their_quote(s: Seq<char>, i: int, j: int, quote: char)
    requires
        0 <= i <= j < s.len(),
        quote != '\\',
        forall|k: int| i <= k < j ==> s[k] != quote && s[k] != '\\',
    ensures
        s[j] == quote ==> string_end(s, i, quote) == j + 1,
        s[j] == '\\' && j + 1 < s.len() ==> string_end(s, i, quote) == string_end(s, j + 2, quote),
    decreases j - i,
{
    if i < j {
        assert(s[i] != quote && s[i] != '\\');
        strings_end_behind_their_quote(s, i + 1, j, quote);
    }
}

/// Law: a tag ends behind its next two closing braces; its strings are passed over, and so are
/// braces that open and close within it. A tag that the source does not close has no end.
pub proof fn tags_end_behind_their_braces(s: Seq<char>, i: int, j: int, depth: nat)
    requires
        0 <= i <= j <= s.len(),
        forall|k: int|
            i <= k < j ==> s[k] != '"' && s[k] != '\'' && s[k] != '[' && s[k] != '{' && s[k] != '}',
    ensures
        j == s.len() ==> tag_end(s, i, depth) is None,
        j + 1 < s.len() && s[j] == '}' && s[j + 1] == '}' && depth == 0 ==> tag_end(s, i, depth)
            == Some(j + 2),
        j < s.len() && s[j] == '}' && depth > 0 ==> tag_end(s, i, depth) == tag_end(
            s,
            j + 1,
            (depth - 1) as nat,
        ),
        j < s.len() && s[j] == '}' && depth == 0 && (j + 1 == s.len() || s[j + 1] != '}')
            ==> tag_end(s, i, depth) is None,
        j < s.len() && s[j] == '{' ==> tag_end(s, i, depth) == tag_end(s, j + 1, depth + 1),
        j < s.len() && (s[j] == '"' || s[j] == '\'') ==> tag_end(s, i, depth) == tag_end(
            s,
            string_end(s, j + 1, s[j]),
            depth,
        ),
    decreases j - i,
{
    if i < j {
        assert(s[i] != '"' && s[i] != '\'' && s[i] != '[' && s[i] != '{' && s[i] != '}');
        tags_end_behind_their_braces(s, i + 1, j, depth);
    } else if j < s.len() && (s[j] == '"' || s[j] == '\'') {
        lemma_string_ends_within(s, j + 1, s[j]);
    }
}

proof fn lemma_string_ends_within(s: Seq<char>, i: int, quote: char)
    requires
        0 <= i <= s.len(),
    ensures
        i <= string_end(s, i, quote) <= s.len(),
    decreases s.len() - i,
{
    if i < s.len() && s[i] != quote {
        if s[i] == '\\' && i + 1 < s.len() {
            lemma_string_ends_within(s, i + 2, quote);
        } else {
            lemma_string_ends_within(s, i + 1, quote);
        }
    }
}

/// Law: a bracket in a tag is passed over where it holds no quotes and no braces; behind its
/// `]` the tag goes on.
pub proof fn plain_brackets_are_passed_over(s: Seq<char>, i: int, j: int, depth: nat)
    requires
        0 <= i < j < s.len(),
        s[i] == '[',
        s[j] == ']',
        forall|k: int|
            i < k < j ==> s[k] != ']' && s[k] != '"' && s[k] != '\'' && s[k] != '{' && s[k] != '}',
    ensures
        tag_end(s, i, depth) == tag_end(s, j + 1, depth),
{
    lemma_bracket_ends(s, i + 1, j);
}

proof fn lemma_bracket_ends(s: Seq<char>, i: int, j: int)
    requires
        0 <= i <= j < s.len(),
        s[j] == ']',
        forall|k: int| i <= k < j ==> s[k] != ']' && s[k] != '"' && s[k] != '\'',
    ensures
        key_end(s, i) == j,
        list_end(s, i) == j,
    decreases j - i,
{
    if i < j {
        assert(s[i] != ']' && s[i] != '"' && s[i] != '\'');
        lemma_bracket_ends(s, i + 1, j);
    }
}

/// Law: a bracket that holds braces, or that is never closed, leaves the end of its tag untold.
pub proof fn brackets_with_braces_are_not_told(s: Seq<char>, i: int, j: int, depth: nat)
    requires
        0 <= i < j <= s.len(),
        s[i] == '[',
        forall|k: int| i < k < j ==> s[k] != ']',
        j == s.len() || s[j] == '{' || s[j] == '}',
    ensures
        tag_end(s, i, depth) is None,
{
    lemma_key_ends_behind(s, i + 1, j);
    if j < s.len() && is_clear_bracket(s, i + 1) {
        assert(s[j] != '{' && s[j] != '}');
    }
}

proof fn lemma_key_ends_behind(s: Seq<char>, i: int, j: int)
    requires
        0 <= i <= j <= s.len(),
        forall|k: int| i <= k < j ==> s[k] != ']',
    ensures
        key_end(s, i) == key_end(s, j),
        j < s.len() && s[j] != ']' ==> key_end(s, i) > j,
        j == s.len() ==> key_end(s, i) == s.len(),
    decreases j - i,
{
    if i < j {
        assert(s[i] != ']');
        lemma_key_ends_behind(s, i + 1, j);
    } else if j < s.len() && s[j] != ']' {
        lemma_key_end_from(s, j + 1);
    }
}

/// Law: a comment runs to its next two closing braces, unless it starts with two dashes: it then
/// runs to the next two dashes that closing braces follow.
pub proof fn comments_run_to_their_end(s: Seq<char>, i: int, j: int)
    requires
        0 <= i,
        i + 3 <= j < s.len() - 1,
        s[i + 2] == '!',
    ensures
        s[i + 3] != '-' && !belongs(s[i + 3], Class::Gap) && s[j] == '}' && s[j + 1] == '}' && (
        forall|k: int|
            i + 3 <= k < j ==> !(#[trigger] s[k] == '}' && s[k + 1] == '}')) ==> comment_end(s, i)
            == Some(j + 2),
        i + 5 <= j < s.len() - 3 && s[i + 3] == '-' && s[i + 4] == '-' && s[j] == '-' && s[j + 1]
            == '-' && s[j + 2] == '}' && s[j + 3] == '}' && (forall|k: int|
            i + 5 <= k < j ==> !(#[trigger] s[k] == '-' && s[k + 1] == '-' && s[k + 2] == '}' && s[k
                + 3] == '}')) ==> comment_end(s, i) == Some(j + 4),
{
    if s[i + 3] != '-' && !belongs(s[i + 3], Class::Gap) && s[j] == '}' && s[j + 1] == '}' && (
    forall|k: int| i + 3 <= k < j ==> !(#[trigger] s[k] == '}' && s[k + 1] == '}')) {
        lemma_comment_closes(s, i + 3, j, false);
    }
    if i + 5 <= j < s.len() - 3 && s[i + 3] == '-' && s[i + 4] == '-' && s[j] == '-' && s[j + 1]
        == '-' && s[j + 2] == '}' && s[j + 3] == '}' && (forall|k: int|
        i + 5 <= k < j ==> !(#[trigger] s[k] == '-' && s[k + 1] == '-' && s[k + 2] == '}' && s[k + 3]
            == '}')) {
        lemma_comment_closes(s, i + 5, j, true);
    }
}

proof fn lemma_comment_closes(s: Seq<char>, i: int, j: int, dashed: bool)
    requires
        0 <= i <= j < s.len(),
        dashed ==> pair_at(s, j, '-') && pair_at(s, j + 2, '}'),
        !dashed ==> pair_at(s, j, '}'),
        forall|k: int|
            i <= k < j ==> if dashed {
                !(#[trigger] s[k] == '-' && s[k + 1] == '-' && s[k + 2] == '}' && s[k + 3] == '}')
            } else {
                !(s[k] == '}' && s[k + 1] == '}')
            },
    ensures
        comment_close(s, i, dashed) == j,
    decreases j - i,
{
    if i < j {
        assert(s[i] == s[i]);
        lemma_comment_closes(s, i + 1, j, dashed);
    }
}

/// Law: the sign behind a tag's braces says what it is: `>` includes, `/` ends a block, and `#`
/// starts one, which is an inline partial with `*` behind it and an inclusion with `>`.
pub proof fn signs_say_what_a_tag_is(s: Seq<char>, i: int, j: int)
    requires
        0 <= i,
        i + 2 <= j < s.len(),
        s[i] == '{' && s[i + 1] == '{',
        forall|k: int| i + 2 <= k < j ==> belongs(#[trigger] s[k], Class::Mark),
        !belongs(s[j], Class::Mark),
    ensures
        s[j] == '!' && j == i + 2 ==> kind_at(s, i) == Kind::Other,
        s[j] == '>' ==> kind_at(s, i) == Kind::Inclusion,
        s[j] == '/' ==> kind_at(s, i) == Kind::End,
        s[j] == '#' ==> {
            let k = run_end(s, j + 1, Class::Gap);
            kind_at(s, i) == if k < s.len() && s[k] == '*' {
                Kind::Inline
            } else if k < s.len() && s[k] == '>' {
                Kind::InclusionBlock
            } else {
                Kind::Block
            }
        },
        s[j] != '>' && s[j] != '/' && s[j] != '#' && s[j] != '{' ==> kind_at(s, i) == Kind::Other,
        s[j] == '{' && j == i + 2 && j + 1 < s.len() && s[j + 1] == '{' ==> kind_at(s, i)
            == Kind::Raw,
        s[j] == '{' && !(j == i + 2 && j + 1 < s.len() && s[j + 1] == '{') ==> kind_at(s, i)
            == Kind::Other,
{
    lemma_run_ends(s, i + 2, j, Class::Mark);
    if s[j] == '#' {
        runs_end_at_the_first_other_character(s, j + 1, Class::Gap);
    }
    if j > i + 2 {
        assert(belongs(s[i + 2], Class::Mark));
    }
}

proof fn lemma_run_ends(s: Seq<char>, i: int, j: int, class: Class)
    requires
        0 <= i <= j <= s.len(),
        forall|k: int| i <= k < j ==> belongs(#[trigger] s[k], class),
        j == s.len() || !belongs(s[j], class),
    ensures
        run_end(s, i, class) == j,
    decreases j - i,
{
    if i < j {
        lemma_run_ends(s, i + 1, j, class);
    }
}

/// Law: the tags of a source are those of its text, one behind the other: a tag, and the tags
/// from its end on. A source without braces has none.
pub proof fn tags_stand_one_behind_the_other(s: Seq<char>, i: int, j: int)
    requires
        0 <= i <= j <= s.len(),
        forall|k: int| i <= k < j ==> s[k] != '\\' && s[k] != '{',
    ensures
        j == s.len() ==> tags_from(s, i) == Some(Seq::<(int, Kind)>::empty()),
        j + 1 < s.len() && s[j] == '{' && s[j + 1] == '{' ==> match element_end(s, j) {
            Some(e) => i < e <= s.len() ==> match tags_from(s, e) {
                Some(rest) => tags_from(s, i) == Some(seq![(j, kind_at(s, j))] + rest),
                None => tags_from(s, i) is None,
            },
            None => tags_from(s, i) is None,
        },
{
    if j == s.len() || (j + 1 < s.len() && s[j] == '{' && s[j + 1] == '{') {
        text_runs_to_the_next_braces(s, i, j);
    }
}

/// Law: a plain tag, which holds no quotes, brackets, braces or further signs, is one tag from
/// its braces to its closing braces.
pub proof fn plain_tags_are_read_whole(s: Seq<char>, i: int, j: int)
    requires
        0 <= i,
        i + 2 < j < s.len() - 1,
        s[i] == '{' && s[i + 1] == '{',
        s[i + 2] != '!' && s[i + 2] != '{',
        s[j] == '}' && s[j + 1] == '}',
        forall|k: int|
            i + 2 <= k < j ==> s[k] != '"' && s[k] != '\'' && s[k] != '[' && s[k] != '{' && s[k] != '}',
    ensures
        element_end(s, i) == Some(j + 2),
{
    tags_end_behind_their_braces(s, i + 2, j, 0);
    if has_odd_name(s, i) {
        let p = name_index(s, i);
        let m = run_end(s, i + 2, Class::Mark);
        runs_end_at_the_first_other_character(s, i + 2, Class::Mark);
        lemma_run_within(s, i + 2, j, Class::Mark);
        if s[m] == '#' {
            runs_end_at_the_first_other_character(s, m + 1, Class::Gap);
            lemma_run_within(s, m + 1, j, Class::Gap);
        }
        let g = sign_index(s, i);
        assert(g <= j);
        assert(s[g] == '>');
        lemma_run_within(s, g + 1, j, Class::Gap);
        runs_end_at_the_first_other_character(s, g + 1, Class::Gap);
        assert(p <= j);
    }
}

proof fn lemma_run_within(s: Seq<char>, i: int, j: int, class: Class)
    requires
        0 <= i <= j < s.len(),
        s[j] == '}',
    ensures
        run_end(s, i, class) <= j,
    decreases j - i,
{
    if i < j {
        lemma_run_within(s, i + 1, j, class);
    }
}

/// Law: the text of a raw block without backslashes runs to the next four braces, or to the end
/// of the source.
pub proof fn raw_text_runs_to_the_next_four_braces(s: Seq<char>, i: int, j: int)
    requires
        0 <= i <= j <= s.len(),
        forall|k: int| i <= k < j ==> s[k] != '\\',
        forall|k: int|
            i <= k < j ==> !(#[trigger] s[k] == '{' && k + 3 < s.len() && s[k + 1] == '{' && s[k + 2]
                == '{' && s[k + 3] == '{'),
        j == s.len() || (j + 3 < s.len() && s[j] == '{' && s[j + 1] == '{' && s[j + 2] == '{' && s[j
            + 3] == '{'),
    ensures
        text_end(s, i, true) == j,
    decreases j - i,
{
    if i < j {
        assert(s[i] != '\\');
        assert(!four_open_at(s, i));
        raw_text_runs_to_the_next_four_braces(s, i + 1, j);
    }
}

/// Law: a raw block is one element: its opening tag, its text and its closing tag.
pub proof fn raw_blocks_are_read_whole(s: Seq<char>, i: int)
    requires
        0 <= i,
        i + 3 < s.len(),
        s[i] == '{' && s[i + 1] == '{' && s[i + 2] == '{' && s[i + 3] == '{',
    ensures
        kind_at(s, i) == Kind::Raw,
        element_end(s, i) == (match tag_end(s, i + 2, 0) {
            Some(e) => tag_end(s, text_end(s, e, true) + 2, 0),
            None => None,
        }),
{
}

/// Law: an inclusion by a quoted name with a backslash in it is not told. One without reads its
/// name up to its quote.
pub proof fn quoted_names_with_backslashes_are_not_told(s: Seq<char>, i: int, j: int)
    requires
        0 <= i,
        i + 4 <= j < s.len(),
        s[i] == '{' && s[i + 1] == '{' && s[i + 2] == '>' && s[i + 3] == '\'',
        forall|k: int| i + 4 <= k < j ==> s[k] != '\'' && s[k] != '\\',
    ensures
        s[j] == '\\' && j + 1 < s.len() ==> element_end(s, i) is None,
        s[j] == '\'' ==> element_end(s, i) == tag_end(s, i + 2, 0),
{
    assert(sign_index(s, i) == i + 2);
    assert(name_index(s, i) == i + 3);
    strings_end_behind_their_quote(s, i + 4, j, '\'');
    if s[j] == '\\' && j + 1 < s.len() {
        lemma_string_ends_within(s, j + 2, '\'');
        assert(!is_unescaped(s, i + 4, string_end(s, i + 4, '\'')));
    }
    if s[j] == '\'' {
        assert forall|k: int| i + 4 <= k < j + 1 implies s[k] != '\\' by {}
    }
}

/// Law: a bracket is passed over when its strings end before its first `]`, and its end is not
/// told when a string in it runs over that.
pub proof fn strings_in_brackets_end_within(s: Seq<char>, i: int, a: int, j: int, depth: nat)
    requires
        0 <= i < a < j < s.len(),
        s[i] == '[' && s[j] == ']',
        s[a] == '"' || s[a] == '\'',
        forall|k: int| i < k < j ==> s[k] != ']' && s[k] != '{' && s[k] != '}',
        forall|k: int| i < k < a ==> s[k] != '"' && s[k] != '\'',
    ensures
        string_end(s, a + 1, s[a]) > j ==> tag_end(s, i, depth) is None,
        string_end(s, a + 1, s[a]) <= j && (forall|k: int|
            string_end(s, a + 1, s[a]) <= k < j ==> s[k] != '"' && s[k] != '\'') ==> tag_end(
            s,
            i,
            depth,
        ) == tag_end(s, j + 1, depth),
{
    let e = string_end(s, a + 1, s[a]);
    lemma_string_ends_within(s, a + 1, s[a]);
    lemma_key_ends_behind(s, i + 1, j);
    lemma_list_goes_on(s, i + 1, a);
    if e > j {
        lemma_list_end_from(s, e);
    } else if forall|k: int| e <= k < j ==> s[k] != '"' && s[k] != '\'' {
        lemma_bracket_ends(s, e, j);
    }
}

proof fn lemma_list_goes_on(s: Seq<char>, i: int, j: int)
    requires
        0 <= i <= j < s.len(),
        forall|k: int| i <= k < j ==> s[k] != ']' && s[k] != '"' && s[k] != '\'',
    ensures
        list_end(s, i) == list_end(s, j),
    decreases j - i,
{
    if i < j {
        assert(s[i] != ']' && s[i] != '"' && s[i] != '\'');
        lemma_list_goes_on(s, i + 1, j);
    }
}

proof fn lemma_list_end_from(s: Seq<char>, i: int)
    requires
        0 <= i <= s.len(),
    ensures
        i <= list_end(s, i) <= s.len(),
    decreases s.len() - i,
{
    if i < s.len() && s[i] != ']' {
        if s[i] == '"' || s[i] == '\'' {
            lemma_string_ends_within(s, i + 1, s[i]);
            lemma_list_end_from(s, string_end(s, i + 1, s[i]));
        } else {
            lemma_list_end_from(s, i + 1);
        }
    }
}

} // verus!
