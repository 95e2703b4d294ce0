//! Which templates are sure to come to an end.
//!
//! A template may define inline partials and render them with inclusion tags, `{{> name}}` or
//! `{{#> name}}`. An inclusion that leads back to itself is never done: it renders until the
//! stack is gone. Where it leads is read off the source, for whatever data.

use vstd::prelude::*;

use crate::template_tags;
use crate::template_tags::{
    find_name, find_run_end, find_string_end, find_tags, is_free_of_backslashes, is_of, Class,
    Kind,
};
use crate::text;

verus! {

/// The partial that stands for the block which an inclusion was given. The block is rendered
/// beforehand, so including it leads nowhere.
pub const PARTIAL_BLOCK: &'static str = "@partial-block";

/// The tag includes a partial.
pub open spec fn is_inclusion(kind: Kind) -> bool {
    kind == Kind::Inclusion || kind == Kind::InclusionBlock
}

/// By how much a tag deepens the blocks that are open.
pub open spec fn deepens(kind: Kind) -> int {
    match kind {
        Kind::Inline => 1,
        Kind::Block => 1,
        Kind::InclusionBlock => 1,
        Kind::End => -1,
        _ => 0,
    }
}

/// How many blocks are open before the tag at `k`.
pub open spec fn depth_at(tags: Seq<(int, Kind)>, k: int) -> int
    decreases k,
{
    if k <= 0 {
        0
    } else {
        depth_at(tags, k - 1) + deepens(tags[k - 1].1)
    }
}

/// The block that the tag at `m` starts has ended before the tag at `k`.
pub open spec fn has_ended(tags: Seq<(int, Kind)>, m: int, k: int) -> bool {
    exists|j: int| m < j <= k && #[trigger] depth_at(tags, j) <= depth_at(tags, m)
}

/// The tag at `m` starts an inline partial that the tag at `k` stands in.
pub open spec fn encloses(tags: Seq<(int, Kind)>, m: int, k: int) -> bool {
    0 <= m < k && tags[m].1 == Kind::Inline && !has_ended(tags, m, k)
}

/// The tag at `m` starts the innermost inline partial that the tag at `k` stands in.
pub open spec fn holds(tags: Seq<(int, Kind)>, m: int, k: int) -> bool {
    encloses(tags, m, k) && forall|other: int|
        m < other < k ==> !#[trigger] encloses(tags, other, k)
}

/// The tag at `k` stands in no inline partial.
pub open spec fn is_outside(tags: Seq<(int, Kind)>, k: int) -> bool {
    forall|m: int| !#[trigger] encloses(tags, m, k)
}

/// The name of the partial that the tag at `i` includes, with its quotes if it has any;
/// `None` when the source does not give it in plain letters.
pub open spec fn included_name(s: Seq<char>, i: int) -> Option<Seq<char>> {
    let p = template_tags::name_index(s, i);
    if !(0 <= p < s.len()) {
        None
    } else if template_tags::belongs(s[p], Class::Name) {
        Some(s.subrange(p, template_tags::run_end(s, p, Class::Name)))
    } else if s[p] == '\'' {
        Some(s.subrange(p, template_tags::string_end(s, p + 1, '\'')))
    } else {
        None
    }
}

/// The tag at `i` computes the name of what it includes.
pub open spec fn is_computed(s: Seq<char>, i: int) -> bool {
    let p = template_tags::name_index(s, i);
    0 <= p < s.len() && s[p] == '('
}

/// The name of the inline partial that the tag at `i` starts; `None` when the source does not
/// give it in plain letters.
pub open spec fn inline_name(s: Seq<char>, i: int) -> Option<Seq<char>> {
    let p = template_tags::name_index(s, i);
    let q = template_tags::run_end(
        s,
        template_tags::run_end(s, p, Class::Symbol),
        Class::Gap,
    );
    let e = template_tags::string_end(s, q + 1, s[q]);
    if 0 <= q < s.len() && (s[q] == '"' || s[q] == '\'') && q + 1 < e
        && template_tags::is_unescaped(s, q + 1, e) {
        Some(s.subrange(q + 1, e - 1))
    } else {
        None
    }
}

/// The inclusion at `k` may mean the inline partial that the tag at `m` starts.
pub open spec fn may_mean(s: Seq<char>, tags: Seq<(int, Kind)>, k: int, m: int) -> bool {
    let included = included_name(s, tags[k].0);
    let defined = inline_name(s, tags[m].0);
    tags[m].1 == Kind::Inline && (included is None || defined is None || included == defined)
}

/// An inclusion of the template itself at `k` is refused: `handlebars` does so at the top
/// level, until a block has been rendered there.
pub open spec fn is_stopped(tags: Seq<(int, Kind)>, k: int) -> bool {
    depth_at(tags, k) == 0 && forall|m: int|
        0 <= m < k ==> (#[trigger] tags[m]).1 != Kind::Block && tags[m].1 != Kind::Raw
}

/// What the inclusion at `k` renders needs at most `n` inline partials within one another.
pub open spec fn leads_within(
    name: Seq<char>,
    s: Seq<char>,
    tags: Seq<(int, Kind)>,
    k: int,
    n: nat,
) -> bool
    decreases n, 1nat,
{
    let included = included_name(s, tags[k].0);
    if is_computed(s, tags[k].0) {
        false
    } else if included == Some(PARTIAL_BLOCK@) {
        true
    } else if included == Some(name) {
        is_stopped(tags, k)
    } else {
        forall|m: int|
            0 <= m < tags.len() && #[trigger] may_mean(s, tags, k, m) ==> ends_within(
                name,
                s,
                tags,
                m,
                n,
            )
    }
}

/// The inline partial that the tag at `m` starts is rendered with at most `n` inline partials
/// within one another, itself counted.
pub open spec fn ends_within(
    name: Seq<char>,
    s: Seq<char>,
    tags: Seq<(int, Kind)>,
    m: int,
    n: nat,
) -> bool
    decreases n, 0nat,
{
    n > 0 && forall|k: int|
        0 <= k < tags.len() && is_inclusion(tags[k].1) && #[trigger] holds(tags, m, k)
            ==> leads_within(name, s, tags, k, (n - 1) as nat)
}

/// How many inline partials the first `k` tags start.
pub open spec fn inline_count(tags: Seq<(int, Kind)>, k: int) -> nat
    decreases k,
{
    if k <= 0 {
        0
    } else {
        inline_count(tags, k - 1) + if tags[k - 1].1 == Kind::Inline {
            1nat
        } else {
            0nat
        }
    }
}

/// An inclusion may open at `i`.
pub open spec fn may_include_at(s: Seq<char>, i: int) -> bool {
    template_tags::pair_at(s, i, '{') && template_tags::has_sign(s, i, '>')
}

/// No inclusion opens anywhere.
pub open spec fn includes_nothing(s: Seq<char>) -> bool {
    forall|i: int| 0 <= i < s.len() ==> !#[trigger] may_include_at(s, i)
}

/// Every inclusion that the template itself renders leads through finitely many inline
/// partials, no more than there are.
pub open spec fn includes_finitely(
    name: Seq<char>,
    s: Seq<char>,
    tags: Seq<(int, Kind)>,
) -> bool {
    forall|k: int|
        0 <= k < tags.len() && is_inclusion((#[trigger] tags[k]).1) && is_outside(tags, k)
            ==> leads_within(name, s, tags, k, inline_count(tags, tags.len() as int))
}

/// A well-formed template of this name and source is sure to come to an end, whatever the
/// data.
pub open spec fn sure_to_end(name: Seq<char>, source: Seq<char>) -> bool {
    includes_nothing(source) || (template_tags::tags_from(source, 0) matches Some(tags)
        && includes_finitely(name, source, tags))
}

/// Law: a template without inclusions comes to an end.
pub proof fn plain_templates_end(name: Seq<char>, source: Seq<char>)
    requires
        includes_nothing(source),
    ensures
        sure_to_end(name, source),
{
}

/// Law: a partial that may include itself is within no bound.
pub proof fn a_partial_that_includes_itself_has_no_bound(
    name: Seq<char>,
    s: Seq<char>,
    tags: Seq<(int, Kind)>,
    m: int,
    k: int,
    n: nat,
)
    requires
        0 <= m < tags.len(),
        0 <= k < tags.len(),
        is_inclusion(tags[k].1),
        holds(tags, m, k),
        may_mean(s, tags, k, m),
        included_name(s, tags[k].0) != Some(PARTIAL_BLOCK@),
        included_name(s, tags[k].0) != Some(name),
    ensures
        !ends_within(name, s, tags, m, n),
    decreases n,
{
    if n > 0 {
        a_partial_that_includes_itself_has_no_bound(name, s, tags, m, k, (n - 1) as nat);
        if ends_within(name, s, tags, m, n) {
            assert(leads_within(name, s, tags, k, (n - 1) as nat));
        }
    }
}

/// Law: a template that includes itself behind or within a block is not sure to end.
pub proof fn self_inclusion_is_not_sure_to_end(
    name: Seq<char>,
    source: Seq<char>,
    tags: Seq<(int, Kind)>,
    k: int,
)
    requires
        template_tags::tags_from(source, 0) == Some(tags),
        0 <= k < tags.len(),
        is_inclusion(tags[k].1),
        is_outside(tags, k),
        included_name(source, tags[k].0) == Some(name),
        !is_stopped(tags, k),
        name != PARTIAL_BLOCK@,
    ensures
        !sure_to_end(name, source),
{
    template_tags::tags_are_where_they_are_told(source, 0, k);
    assert(may_include_at(source, tags[k].0));
}

/// Reads how many blocks are open before each tag, and behind the last.
fn find_depths(found: &Vec<(usize, Kind)>) -> (r: Vec<i128>)
    ensures
        r@.len() == found@.len() + 1,
        forall|k: int|
            0 <= k < r@.len() ==> #[trigger] r@[k] == depth_at(template_tags::seen(found@), k),
{
    let ghost tags = template_tags::seen(found@);
    let n: usize = found.len();
    let mut depths: Vec<i128> = Vec::new();
    let mut depth: i128 = 0;
    depths.push(depth);
    let mut k: usize = 0;
    while k < n
        invariant
            k <= n,
            n == found@.len(),
            tags == template_tags::seen(found@),
            depths@.len() == k + 1,
            depth == depth_at(tags, k as int),
            -k <= depth <= k,
            forall|j: int| 0 <= j < depths@.len() ==> #[trigger] depths@[j] == depth_at(tags, j),
        decreases n - k,
    {
        assert(tags[k as int].1 == found@[k as int].1);
        match found[k].1 {
            Kind::Inline => {
                depth = depth + 1;
            },
            Kind::Block => {
                depth = depth + 1;
            },
            Kind::InclusionBlock => {
                depth = depth + 1;
            },
            Kind::End => {
                depth = depth - 1;
            },
            Kind::Inclusion => {},
            Kind::Raw => {},
            Kind::Other => {},
        }
        k = k + 1;
        depths.push(depth);
    }
    depths
}

/// Whether the block that the tag at `m` starts has ended before the tag at `k`.
fn ended(found: &Vec<(usize, Kind)>, depths: &Vec<i128>, m: usize, k: usize) -> (r: bool)
    requires
        m < k < found@.len(),
        depths@.len() == found@.len() + 1,
        forall|j: int|
            0 <= j < depths@.len() ==> #[trigger] depths@[j] == depth_at(
                template_tags::seen(found@),
                j,
            ),
    ensures
        r == has_ended(template_tags::seen(found@), m as int, k as int),
{
    let ghost tags = template_tags::seen(found@);
    let mut j: usize = m;
    while j < k
        invariant
            m <= j <= k < found@.len(),
            tags == template_tags::seen(found@),
            depths@.len() == found@.len() + 1,
            forall|i: int| 0 <= i < depths@.len() ==> #[trigger] depths@[i] == depth_at(tags, i),
            forall|i: int| m < i <= j ==> #[trigger] depth_at(tags, i) > depth_at(tags, m as int),
        decreases k - j,
    {
        j = j + 1;
        if depths[j] <= depths[m] {
            assert(depth_at(tags, j as int) <= depth_at(tags, m as int));
            return true;
        }
    }
    false
}

/// Finds the innermost inline partial that the tag at `k` stands in.
fn find_holder(found: &Vec<(usize, Kind)>, depths: &Vec<i128>, k: usize) -> (r: Option<usize>)
    requires
        k < found@.len(),
        depths@.len() == found@.len() + 1,
        forall|j: int|
            0 <= j < depths@.len() ==> #[trigger] depths@[j] == depth_at(
                template_tags::seen(found@),
                j,
            ),
    ensures
        match r {
            Some(m) => m < k && holds(template_tags::seen(found@), m as int, k as int),
            None => is_outside(template_tags::seen(found@), k as int),
        },
{
    let ghost tags = template_tags::seen(found@);
    let mut m: usize = k;
    while m > 0
        invariant
            m <= k < found@.len(),
            tags == template_tags::seen(found@),
            depths@.len() == found@.len() + 1,
            forall|j: int| 0 <= j < depths@.len() ==> #[trigger] depths@[j] == depth_at(tags, j),
            forall|other: int| m <= other < k ==> !#[trigger] encloses(tags, other, k as int),
        decreases m,
    {
        m = m - 1;
        assert(tags[m as int].1 == found@[m as int].1);
        if found[m].1 == Kind::Inline && !ended(found, depths, m, k) {
            assert(encloses(tags, m as int, k as int));
            return Some(m);
        }
        assert(!encloses(tags, m as int, k as int));
    }
    None
}

/// Reads the name of the partial that the tag at `i` includes.
fn read_included_name(chars: &Vec<char>, i: usize) -> (r: Option<Vec<char>>)
    requires
        i + 2 <= chars@.len(),
        template_tags::sign_index(chars@, i as int) < chars@.len(),
    ensures
        match r {
            Some(name) => included_name(chars@, i as int) == Some(name@),
            None => included_name(chars@, i as int) is None,
        },
{
    let p: usize = find_name(chars, i);
    if p < chars.len() && is_of(chars[p], Class::Name) {
        let end: usize = find_run_end(chars, p, Class::Name);
        return Some(text::slice(chars, p, end));
    }
    if p < chars.len() && chars[p] == '\'' {
        let end: usize = find_string_end(chars, p + 1, '\'');
        return Some(text::slice(chars, p, end));
    }
    None
}

/// Reads the name of the inline partial that the tag at `i` starts.
fn read_inline_name(chars: &Vec<char>, i: usize) -> (r: Option<Vec<char>>)
    requires
        i + 2 <= chars@.len(),
        template_tags::sign_index(chars@, i as int) < chars@.len(),
    ensures
        match r {
            Some(name) => inline_name(chars@, i as int) == Some(name@),
            None => inline_name(chars@, i as int) is None,
        },
{
    let p: usize = find_name(chars, i);
    let q: usize = find_run_end(chars, find_run_end(chars, p, Class::Symbol), Class::Gap);
    if q < chars.len() && (chars[q] == '"' || chars[q] == '\'') {
        let e: usize = find_string_end(chars, q + 1, chars[q]);
        if q + 1 < e && is_free_of_backslashes(chars, q + 1, e) {
            return Some(text::slice(chars, q + 1, e - 1));
        }
    }
    None
}

/// A template that is being read.
struct Reading {
    chars: Vec<char>,
    found: Vec<(usize, Kind)>,
    depths: Vec<i128>,
}

impl Reading {
    spec fn tags(self) -> Seq<(int, Kind)> {
        template_tags::seen(self.found@)
    }

    spec fn wf(self) -> bool {
        &&& self.depths@.len() == self.found@.len() + 1
        &&& forall|j: int|
            0 <= j < self.depths@.len() ==> #[trigger] self.depths@[j] == depth_at(self.tags(), j)
        &&& forall|k: int|
            0 <= k < self.found@.len() ==> template_tags::pair_at(
                self.chars@,
                (#[trigger] self.found@[k]).0 as int,
                '{',
            ) && self.found@[k].1 == template_tags::kind_at(
                self.chars@,
                self.found@[k].0 as int,
            )
    }

    /// Whether the inclusion at `k` may mean the inline partial at `m`.
    fn means(&self, included: &Option<Vec<char>>, k: usize, m: usize) -> (r: bool)
        requires
            self.wf(),
            k < self.found@.len(),
            m < self.found@.len(),
            match included {
                Some(name) => included_name(self.chars@, self.tags()[k as int].0) == Some(name@),
                None => included_name(self.chars@, self.tags()[k as int].0) is None,
            },
        ensures
            r == may_mean(self.chars@, self.tags(), k as int, m as int),
    {
        let (at, kind) = self.found[m];
        assert(self.tags()[m as int] == (at as int, kind));
        if kind != Kind::Inline {
            return false;
        }
        match included {
            None => true,
            Some(name) => match read_inline_name(&self.chars, at) {
                None => true,
                Some(defined) => text::same_characters(name, &defined),
            },
        }
    }

    /// Whether an inclusion of the template itself at `k` is refused.
    fn stopped(&self, k: usize) -> (r: bool)
        requires
            self.wf(),
            k < self.found@.len(),
        ensures
            r == is_stopped(self.tags(), k as int),
    {
        if self.depths[k] != 0 {
            return false;
        }
        let mut m: usize = 0;
        while m < k
            invariant
                self.wf(),
                m <= k < self.found@.len(),
                forall|j: int|
                    0 <= j < m ==> (#[trigger] self.tags()[j]).1 != Kind::Block && self.tags()[j].1
                        != Kind::Raw,
            decreases k - m,
        {
            let kind: Kind = self.found[m].1;
            assert(self.tags()[m as int].1 == kind);
            if kind == Kind::Block || kind == Kind::Raw {
                return false;
            }
            m = m + 1;
        }
        true
    }

    /// Whether the inclusion at `k` needs at most `n` inline partials within one another,
    /// given which of them need no more.
    fn leads(
        &self,
        own: &Vec<char>,
        body: &Vec<char>,
        ends: &Vec<bool>,
        k: usize,
        Ghost(n): Ghost<nat>,
    ) -> (r: bool)
        requires
            self.wf(),
            k < self.found@.len(),
            is_inclusion(self.found@[k as int].1),
            body@ == PARTIAL_BLOCK@,
            ends@.len() == self.found@.len(),
            forall|m: int|
                0 <= m < ends@.len() ==> #[trigger] ends@[m] == ends_within(
                    own@,
                    self.chars@,
                    self.tags(),
                    m,
                    n,
                ),
        ensures
            r == leads_within(own@, self.chars@, self.tags(), k as int, n),
    {
        let at: usize = self.found[k].0;
        assert(self.tags()[k as int].0 == at);
        let p: usize = find_name(&self.chars, at);
        if p < self.chars.len() && self.chars[p] == '(' {
            return false;
        }
        let included: Option<Vec<char>> = read_included_name(&self.chars, at);
        match &included {
            Some(name) => {
                if text::same_characters(name, body) {
                    return true;
                }
                if text::same_characters(name, own) {
                    return self.stopped(k);
                }
            },
            None => {},
        }
        let mut m: usize = 0;
        while m < ends.len()
            invariant
                self.wf(),
                k < self.found@.len(),
                m <= ends@.len(),
                ends@.len() == self.found@.len(),
                match included {
                    Some(name) => included_name(self.chars@, self.tags()[k as int].0) == Some(
                        name@,
                    ),
                    None => included_name(self.chars@, self.tags()[k as int].0) is None,
                },
                !is_computed(self.chars@, self.tags()[k as int].0),
                included_name(self.chars@, self.tags()[k as int].0) != Some(PARTIAL_BLOCK@),
                included_name(self.chars@, self.tags()[k as int].0) != Some(own@),
                forall|j: int|
                    0 <= j < ends@.len() ==> #[trigger] ends@[j] == ends_within(
                        own@,
                        self.chars@,
                        self.tags(),
                        j,
                        n,
                    ),
                forall|j: int|
                    0 <= j < m && #[trigger] may_mean(self.chars@, self.tags(), k as int, j)
                        ==> ends_within(own@, self.chars@, self.tags(), j, n),
            decreases ends@.len() - m,
        {
            if !ends[m] && self.means(&included, k, m) {
                assert(may_mean(self.chars@, self.tags(), k as int, m as int));
                assert(!ends_within(own@, self.chars@, self.tags(), m as int, n));
                return false;
            }
            m = m + 1;
        }
        true
    }

    /// Which inline partials need at most one more than `n`, given which need at most `n`.
    fn widen(
        &self,
        own: &Vec<char>,
        body: &Vec<char>,
        ends: &Vec<bool>,
        holders: &Vec<Option<usize>>,
        Ghost(n): Ghost<nat>,
    ) -> (r: Vec<bool>)
        requires
            self.wf(),
            body@ == PARTIAL_BLOCK@,
            ends@.len() == self.found@.len(),
            forall|m: int|
                0 <= m < ends@.len() ==> #[trigger] ends@[m] == ends_within(
                    own@,
                    self.chars@,
                    self.tags(),
                    m,
                    n,
                ),
            holders_hold(self.tags(), holders@),
        ensures
            r@.len() == self.found@.len(),
            forall|m: int|
                0 <= m < r@.len() ==> #[trigger] r@[m] == ends_within(
                    own@,
                    self.chars@,
                    self.tags(),
                    m,
                    n + 1,
                ),
    {
        let ghost s = self.chars@;
        let ghost tags = self.tags();
        let len: usize = self.found.len();
        let mut wider: Vec<bool> = Vec::new();
        let mut m: usize = 0;
        while m < len
            invariant
                m <= len,
                wider@.len() == m,
                forall|j: int| 0 <= j < m ==> #[trigger] wider@[j],
            decreases len - m,
        {
            wider.push(true);
            m = m + 1;
        }
        let mut k: usize = 0;
        while k < len
            invariant
                self.wf(),
                s == self.chars@,
                tags == self.tags(),
                len == self.found@.len(),
                k <= len,
                body@ == PARTIAL_BLOCK@,
                ends@.len() == len,
                forall|m: int|
                    0 <= m < ends@.len() ==> #[trigger] ends@[m] == ends_within(
                        own@,
                        s,
                        tags,
                        m,
                        n,
                    ),
                holders_hold(tags, holders@),
                wider@.len() == len,
                forall|m: int|
                    0 <= m < len ==> #[trigger] wider@[m] == (forall|j: int|
                        0 <= j < k && is_inclusion(tags[j].1) && #[trigger] holds(tags, m, j)
                            ==> leads_within(own@, s, tags, j, n)),
            decreases len - k,
        {
            let ghost before = wider@;
            let kind: Kind = self.found[k].1;
            assert(tags[k as int].1 == kind);
            if kind == Kind::Inclusion || kind == Kind::InclusionBlock {
                match holders[k] {
                    Some(m) => {
                        assert(holds(tags, m as int, k as int));
                        if !self.leads(own, body, ends, k, Ghost(n)) {
                            wider.set(m, false);
                        }
                        assert forall|other: int| 0 <= other < len && other != m implies !holds(
                            tags,
                            other,
                            k as int,
                        ) by {
                            if holds(tags, other, k as int) {
                                assert(encloses(tags, other, k as int));
                                assert(encloses(tags, m as int, k as int));
                            }
                        }
                    },
                    None => {
                        assert forall|other: int| !holds(tags, other, k as int) by {
                            assert(!encloses(tags, other, k as int));
                        }
                    },
                }
            }
            assert forall|m: int| 0 <= m < len implies #[trigger] wider@[m] == (forall|j: int|
                0 <= j < k + 1 && is_inclusion(tags[j].1) && #[trigger] holds(tags, m, j)
                    ==> leads_within(own@, s, tags, j, n)) by {
                let whole = forall|j: int|
                    0 <= j < k + 1 && is_inclusion(tags[j].1) && #[trigger] holds(tags, m, j)
                        ==> leads_within(own@, s, tags, j, n);
                let part = forall|j: int|
                    0 <= j < k && is_inclusion(tags[j].1) && #[trigger] holds(tags, m, j)
                        ==> leads_within(own@, s, tags, j, n);
                let last = is_inclusion(tags[k as int].1) && holds(tags, m, k as int)
                    ==> leads_within(own@, s, tags, k as int, n);
                assert(before[m] == part);
                assert(whole == (part && last)) by {
                    if part && last {
                        assert forall|j: int|
                            0 <= j < k + 1 && is_inclusion(tags[j].1) && #[trigger] holds(
                                tags,
                                m,
                                j,
                            ) implies leads_within(own@, s, tags, j, n) by {
                            if j == k {
                                assert(last);
                            }
                        }
                    }
                }
            }
            k = k + 1;
        }
        wider
    }
}

/// `holders` tells of each tag which inline partial it stands in directly.
spec fn holders_hold(tags: Seq<(int, Kind)>, holders: Seq<Option<usize>>) -> bool {
    &&& holders.len() == tags.len()
    &&& forall|k: int|
        0 <= k < holders.len() ==> match #[trigger] holders[k] {
            Some(m) => m < k && holds(tags, m as int, k),
            None => is_outside(tags, k),
        }
}

/// Whether an inclusion opens anywhere.
fn includes_something(chars: &Vec<char>) -> (r: bool)
    ensures
        r == !includes_nothing(chars@),
{
    let n: usize = chars.len();
    let mut i: usize = 0;
    while i < n
        invariant
            i <= n,
            n == chars@.len(),
            forall|j: int| 0 <= j < i ==> !#[trigger] may_include_at(chars@, j),
        decreases n - i,
    {
        if template_tags::opens_inclusion(chars, i) {
            assert(may_include_at(chars@, i as int));
            return true;
        }
        i = i + 1;
    }
    false
}

/// Whether a well-formed template of this name is sure to come to an end.
pub fn is_sure_to_end(name: &str, source: &str) -> (r: bool)
    ensures
        r == sure_to_end(name@, source@),
{
    let chars: Vec<char> = text::characters(source);
    if !includes_something(&chars) {
        return true;
    }
    let found: Vec<(usize, Kind)> = match find_tags(&chars) {
        Some(found) => found,
        None => {
            return false;
        },
    };
    let own: Vec<char> = text::characters(name);
    let body: Vec<char> = text::characters(PARTIAL_BLOCK);
    let depths: Vec<i128> = find_depths(&found);
    let ghost tags = template_tags::seen(found@);
    let len: usize = found.len();
    let mut holders: Vec<Option<usize>> = Vec::new();
    let mut ends: Vec<bool> = Vec::new();
    let mut count: usize = 0;
    let mut k: usize = 0;
    while k < len
        invariant
            k <= len,
            len == found@.len(),
            tags == template_tags::seen(found@),
            depths@.len() == found@.len() + 1,
            forall|j: int| 0 <= j < depths@.len() ==> #[trigger] depths@[j] == depth_at(tags, j),
            holders@.len() == k,
            forall|j: int|
                0 <= j < k ==> match #[trigger] holders@[j] {
                    Some(m) => m < j && holds(tags, m as int, j),
                    None => is_outside(tags, j),
                },
            ends@.len() == k,
            forall|j: int| 0 <= j < k ==> !#[trigger] ends@[j],
            count == inline_count(tags, k as int),
            count <= k,
        decreases len - k,
    {
        holders.push(find_holder(&found, &depths, k));
        ends.push(false);
        assert(tags[k as int].1 == found@[k as int].1);
        if found[k].1 == Kind::Inline {
            count = count + 1;
        }
        k = k + 1;
    }
    let reading = Reading { chars, found, depths };
    let mut n: usize = 0;
    while n < count
        invariant
            n <= count,
            reading.wf(),
            tags == reading.tags(),
            body@ == PARTIAL_BLOCK@,
            ends@.len() == reading.found@.len(),
            holders_hold(tags, holders@),
            forall|m: int|
                0 <= m < ends@.len() ==> #[trigger] ends@[m] == ends_within(
                    own@,
                    reading.chars@,
                    tags,
                    m,
                    n as nat,
                ),
        decreases count - n,
    {
        ends = reading.widen(&own, &body, &ends, &holders, Ghost(n as nat));
        n = n + 1;
    }
    let mut k: usize = 0;
    while k < len
        invariant
            k <= len,
            len == tags.len(),
            n == inline_count(tags, len as int),
            reading.wf(),
            tags == reading.tags(),
            reading.chars@ == source@,
            own@ == name@,
            body@ == PARTIAL_BLOCK@,
            ends@.len() == reading.found@.len(),
            holders_hold(tags, holders@),
            template_tags::tags_from(source@, 0) == Some(tags),
            !includes_nothing(source@),
            forall|m: int|
                0 <= m < ends@.len() ==> #[trigger] ends@[m] == ends_within(
                    own@,
                    reading.chars@,
                    tags,
                    m,
                    n as nat,
                ),
            forall|j: int|
                0 <= j < k && is_inclusion((#[trigger] tags[j]).1) && is_outside(tags, j)
                    ==> leads_within(name@, source@, tags, j, n as nat),
        decreases len - k,
    {
        let kind: Kind = reading.found[k].1;
        assert(tags[k as int].1 == kind);
        if kind == Kind::Inclusion || kind == Kind::InclusionBlock {
            match holders[k] {
                Some(m) => {
                    assert(encloses(tags, m as int, k as int));
                },
                None => {
                    if !reading.leads(&own, &body, &ends, k, Ghost(n as nat)) {
                        return false;
                    }
                },
            }
        }
        k = k + 1;
    }
    true
}

/// Law: a template comes to an end when none of its two braces is followed, over white space,
/// tildes and hashes alone, by a `>`.
pub proof fn sources_without_inclusion_signs_end(name: Seq<char>, source: Seq<char>)
    requires
        forall|i: int, j: int|
            0 <= i && i + 2 <= j < source.len() && #[trigger] source[i] == '{' && source[i + 1]
                == '{' && #[trigger] source[j] == '>' ==> exists|k: int|
                i + 2 <= k < j && #[trigger] source[k] != ' ' && source[k] != '\t' && source[k]
                    != '\n' && source[k] != '\r' && source[k] != '~' && source[k] != '#',
    ensures
        sure_to_end(name, source),
{
    assert forall|i: int| 0 <= i < source.len() implies !#[trigger] may_include_at(source, i) by {
        if may_include_at(source, i) {
            let m = template_tags::run_end(source, i + 2, Class::Mark);
            let j = template_tags::sign_index(source, i);
            template_tags::runs_end_at_the_first_other_character(source, i + 2, Class::Mark);
            if source[m] == '#' {
                template_tags::runs_end_at_the_first_other_character(source, m + 1, Class::Gap);
            }
            assert(source[i] == '{' && source[j] == '>');
            let k = choose|k: int|
                i + 2 <= k < j && #[trigger] source[k] != ' ' && source[k] != '\t' && source[k]
                    != '\n' && source[k] != '\r' && source[k] != '~' && source[k] != '#';
            if k < m {
                assert(template_tags::belongs(source[k], Class::Mark));
            } else if k > m {
                assert(template_tags::belongs(source[k], Class::Gap));
            }
        }
    }
}

/// The inclusion at `k` is of the kind that may go on without end by itself: its name is
/// computed, or it is of the template itself and not refused.
pub open spec fn goes_astray(
    name: Seq<char>,
    s: Seq<char>,
    tags: Seq<(int, Kind)>,
    k: int,
) -> bool {
    is_computed(s, tags[k].0) || (included_name(s, tags[k].0) == Some(name) && included_name(
        s,
        tags[k].0,
    ) != Some("@partial-block"@) && !is_stopped(tags, k))
}

/// The inclusion at `k` may render the inline partial at `m`.
pub open spec fn may_render(
    name: Seq<char>,
    s: Seq<char>,
    tags: Seq<(int, Kind)>,
    k: int,
    m: int,
) -> bool {
    &&& 0 <= m < tags.len()
    &&& !is_computed(s, tags[k].0)
    &&& included_name(s, tags[k].0) != Some("@partial-block"@)
    &&& included_name(s, tags[k].0) != Some(name)
    &&& may_mean(s, tags, k, m)
}

/// The inclusion at `k` may lead to the one at `next`, which stands in an inline partial that
/// the first may render.
pub open spec fn may_lead(
    name: Seq<char>,
    s: Seq<char>,
    tags: Seq<(int, Kind)>,
    k: int,
    next: int,
) -> bool {
    &&& 0 <= next < tags.len()
    &&& is_inclusion(tags[next].1)
    &&& exists|m: int| #[trigger] may_render(name, s, tags, k, m) && holds(tags, m, next)
}

/// Inclusions each of which may lead to the next.
pub open spec fn is_chain(
    name: Seq<char>,
    s: Seq<char>,
    tags: Seq<(int, Kind)>,
    chain: Seq<int>,
) -> bool {
    &&& chain.len() > 0
    &&& 0 <= chain[0] < tags.len()
    &&& is_inclusion(tags[chain[0]].1)
    &&& forall|i: int|
        0 <= i < chain.len() - 1 ==> may_lead(name, s, tags, #[trigger] chain[i], chain[i + 1])
}

/// Law: inclusions within a bound lead on for no longer than the bound, and never astray.
pub proof fn bounded_inclusions_lead_nowhere(
    name: Seq<char>,
    s: Seq<char>,
    tags: Seq<(int, Kind)>,
    chain: Seq<int>,
    n: nat,
)
    requires
        is_chain(name, s, tags, chain),
        leads_within(name, s, tags, chain[0], n),
    ensures
        chain.len() <= n + 1,
        !goes_astray(name, s, tags, chain.last()),
        chain.len() == n + 1 ==> forall|m: int|
            !#[trigger] may_render(name, s, tags, chain.last(), m),
    decreases n,
{
    if chain.len() > 1 {
        let k = chain[0];
        let next = chain[1];
        assert(may_lead(name, s, tags, k, next));
        let m = choose|m: int| #[trigger]
            may_render(name, s, tags, k, m) && holds(tags, m, next);
        assert(may_mean(s, tags, k, m));
        assert(ends_within(name, s, tags, m, n));
        assert(holds(tags, m, next));
        assert(leads_within(name, s, tags, next, (n - 1) as nat));
        let rest = chain.drop_first();
        assert forall|i: int| 0 <= i < rest.len() - 1 implies may_lead(
            name,
            s,
            tags,
            #[trigger] rest[i],
            rest[i + 1],
        ) by {
            assert(rest[i] == chain[i + 1] && rest[i + 1] == chain[i + 1 + 1]);
        }
        bounded_inclusions_lead_nowhere(name, s, tags, rest, (n - 1) as nat);
        assert(rest.last() == chain.last());
    } else if n == 0 {
        assert forall|m: int| !#[trigger] may_render(name, s, tags, chain.last(), m) by {
            if may_render(name, s, tags, chain.last(), m) {
                assert(may_mean(s, tags, chain[0], m));
                assert(ends_within(name, s, tags, m, 0));
            }
        }
    }
}

/// Law: inclusions beyond a bound do lead on: there are as many behind one another as the bound
/// says and a partial more, or they lead astray before.
pub proof fn unbounded_inclusions_lead_on(
    name: Seq<char>,
    s: Seq<char>,
    tags: Seq<(int, Kind)>,
    k: int,
    n: nat,
) -> (chain: Seq<int>)
    requires
        0 <= k < tags.len(),
        is_inclusion(tags[k].1),
        !leads_within(name, s, tags, k, n),
    ensures
        is_chain(name, s, tags, chain),
        chain[0] == k,
        goes_astray(name, s, tags, chain.last()) || (chain.len() == n + 1 && exists|m: int|
            #[trigger] may_render(name, s, tags, chain.last(), m)),
    decreases n,
{
    let one = seq![k];
    assert(one.last() == k);
    if goes_astray(name, s, tags, k) {
        one
    } else {
        let m = choose|m: int|
            0 <= m < tags.len() && #[trigger] may_mean(s, tags, k, m) && !ends_within(
                name,
                s,
                tags,
                m,
                n,
            );
        assert(may_render(name, s, tags, k, m));
        if n == 0 {
            one
        } else {
            let next = choose|next: int|
                0 <= next < tags.len() && is_inclusion(tags[next].1) && #[trigger] holds(
                    tags,
                    m,
                    next,
                ) && !leads_within(name, s, tags, next, (n - 1) as nat);
            let rest = unbounded_inclusions_lead_on(name, s, tags, next, (n - 1) as nat);
            let chain = one + rest;
            assert(may_lead(name, s, tags, k, next));
            assert forall|i: int| 0 <= i < chain.len() - 1 implies may_lead(
                name,
                s,
                tags,
                #[trigger] chain[i],
                chain[i + 1],
            ) by {
                if i == 0 {
                    assert(chain[1] == rest[0]);
                } else {
                    assert(chain[i] == rest[i - 1] && chain[i + 1] == rest[i - 1 + 1]);
                }
            }
            assert(chain.last() == rest.last());
            chain
        }
    }
}

/// Law: a template that includes something is sure to come to an end exactly when its tags are
/// told, and no inclusion that it renders leads astray or through more inline partials than it
/// has, as one would that leads back to itself.
pub proof fn templates_end_when_no_chain_goes_on(
    name: Seq<char>,
    source: Seq<char>,
    tags: Seq<(int, Kind)>,
)
    requires
        template_tags::tags_from(source, 0) == Some(tags),
        !includes_nothing(source),
    ensures
        sure_to_end(name, source) <==> forall|chain: Seq<int>|
            #[trigger] is_chain(name, source, tags, chain) && is_outside(tags, chain[0])
                ==> !goes_astray(name, source, tags, chain.last()) && !(chain.len()
                == inline_count(tags, tags.len() as int) + 1 && exists|m: int|
                #[trigger] may_render(name, source, tags, chain.last(), m)),
{
    let n = inline_count(tags, tags.len() as int);
    if sure_to_end(name, source) {
        assert forall|chain: Seq<int>|
            #[trigger] is_chain(name, source, tags, chain) && is_outside(
                tags,
                chain[0],
            ) implies !goes_astray(name, source, tags, chain.last()) && !(chain.len() == n + 1
            && exists|m: int| #[trigger] may_render(name, source, tags, chain.last(), m)) by {
            assert(is_inclusion(tags[chain[0]].1));
            bounded_inclusions_lead_nowhere(name, source, tags, chain, n);
        }
    } else {
        let k = choose|k: int|
            0 <= k < tags.len() && is_inclusion((#[trigger] tags[k]).1) && is_outside(tags, k)
                && !leads_within(name, source, tags, k, n);
        let chain = unbounded_inclusions_lead_on(name, source, tags, k, n);
        assert(is_chain(name, source, tags, chain) && is_outside(tags, chain[0]));
    }
}

/// Law: a template whose tags are not told, and which includes something, is not sure to end.
pub proof fn untold_templates_are_not_sure_to_end(name: Seq<char>, source: Seq<char>, i: int)
    requires
        template_tags::tags_from(source, 0) is None,
        0 <= i,
        i + 2 < source.len(),
        source[i] == '{' && source[i + 1] == '{' && source[i + 2] == '>',
    ensures
        !sure_to_end(name, source),
{
    assert(template_tags::sign_index(source, i) == i + 2);
    assert(may_include_at(source, i));
}

/// Law: the starts of inline partials, of blocks and of inclusions with a block open a block
/// each, an end closes one, and no other tag does either. Nothing is open before the first tag.
pub proof fn blocks_open_and_close_one_by_one(tags: Seq<(int, Kind)>, k: int)
    requires
        0 <= k < tags.len(),
    ensures
        depth_at(tags, 0) == 0,
        tags[k].1 is Inline || tags[k].1 is Block || tags[k].1 is InclusionBlock ==> depth_at(
            tags,
            k + 1,
        ) == depth_at(tags, k) + 1,
        tags[k].1 is End ==> depth_at(tags, k + 1) == depth_at(tags, k) - 1,
        tags[k].1 is Inclusion || tags[k].1 is Raw || tags[k].1 is Other ==> depth_at(tags, k + 1)
            == depth_at(tags, k),
        inline_count(tags, 0) == 0,
        inline_count(tags, k + 1) == inline_count(tags, k) + if tags[k].1 is Inline {
            1nat
        } else {
            0nat
        },
        is_inclusion(tags[k].1) <==> tags[k].1 is Inclusion || tags[k].1 is InclusionBlock,
{
}

/// Law: a tag stands in the last inline partial that was started before it and has not ended,
/// and in one at most. A partial ends with the end that closes it.
pub proof fn tags_stand_in_the_innermost_partial(
    tags: Seq<(int, Kind)>,
    m: int,
    other: int,
    k: int,
)
    requires
        0 <= m < k < tags.len(),
    ensures
        tags[m].1 is Inline && k == m + 1 ==> holds(tags, m, k),
        holds(tags, m, k) ==> tags[m].1 is Inline && !is_outside(tags, k),
        holds(tags, m, k) && holds(tags, other, k) ==> m == other,
        depth_at(tags, k) <= depth_at(tags, m) ==> !holds(tags, m, k),
        tags[m].1 is Inline && tags[m + 1].1 is End && m + 1 < k ==> !holds(tags, m, k),
        tags[m].1 is Inline && (forall|j: int| m < j <= k ==> #[trigger] depth_at(tags, j)
            > depth_at(tags, m)) && (forall|j: int|
            m < j < k ==> !((#[trigger] tags[j]).1 is Inline)) ==> holds(tags, m, k),
        (forall|j: int| 0 <= j < k ==> !((#[trigger] tags[j]).1 is Inline)) ==> is_outside(tags, k),
{
    if tags[m].1 is Inline && k == m + 1 {
        assert(depth_at(tags, k) == depth_at(tags, m) + 1);
        assert(encloses(tags, m, k));
    }
    if holds(tags, m, k) && holds(tags, other, k) {
        assert(encloses(tags, m, k) && encloses(tags, other, k));
    }
    if depth_at(tags, k) <= depth_at(tags, m) {
        assert(has_ended(tags, m, k));
    }
    if tags[m].1 is Inline && tags[m + 1].1 is End && m + 1 < k {
        assert(depth_at(tags, m + 1) == depth_at(tags, m) + 1);
        assert(depth_at(tags, m + 2) == depth_at(tags, m));
        assert(has_ended(tags, m, k));
    }
    if forall|j: int| 0 <= j < k ==> !((#[trigger] tags[j]).1 is Inline) {
        assert forall|j: int| !#[trigger] encloses(tags, j, k) by {
            if encloses(tags, j, k) {
                assert(tags[j].1 is Inline);
            }
        }
    }
}

/// Law: a template may include itself where nothing is open and no block or raw block has been
/// rendered: there the inclusion is refused. Behind one, or within a block, it is not.
pub proof fn self_inclusions_are_refused_at_the_top(tags: Seq<(int, Kind)>, m: int, k: int)
    requires
        0 <= k < tags.len(),
    ensures
        k == 0 ==> is_stopped(tags, k),
        depth_at(tags, k) != 0 ==> !is_stopped(tags, k),
        0 <= m < k && (tags[m].1 is Block || tags[m].1 is Raw) ==> !is_stopped(tags, k),
        depth_at(tags, k) == 0 && (forall|j: int|
            0 <= j < k ==> !((#[trigger] tags[j]).1 is Block) && !(tags[j].1 is Raw)) ==> is_stopped(
            tags,
            k,
        ),
{
    if 0 <= m < k && (tags[m].1 is Block || tags[m].1 is Raw) {
        assert(tags[m].1 == Kind::Block || tags[m].1 == Kind::Raw);
    }
}

/// Law: the name that an inclusion gives in plain letters stands behind its sign and white
/// space, up to the first character that no name holds. One in parentheses is computed.
pub proof fn included_names_stand_behind_their_sign(s: Seq<char>, i: int, p: int, q: int)
    requires
        0 <= i,
        i + 3 <= p <= q <= s.len(),
        s[i] == '{' && s[i + 1] == '{' && s[i + 2] == '>',
        forall|k: int| i + 3 <= k < p ==> #[trigger] s[k] == ' ',
        p < s.len() && s[p] != ' ' && s[p] != '\t' && s[p] != '\n' && s[p] != '\r',
        forall|k: int| p <= k < q ==> template_tags::belongs(#[trigger] s[k], Class::Name),
        q == s.len() || !template_tags::belongs(s[q], Class::Name),
    ensures
        p < q ==> included_name(s, i) == Some(s.subrange(p, q)),
        p == q && s[p] != '\'' ==> included_name(s, i) is None,
        is_computed(s, i) <==> s[p] == '(',
{
    assert(template_tags::sign_index(s, i) == i + 2);
    template_tags::runs_end_at_the_first_other_character(s, i + 3, Class::Gap);
    let g = template_tags::name_index(s, i);
    if g < p {
        assert(s[g] == ' ');
    } else if p < g {
        assert(template_tags::belongs(s[p], Class::Gap));
    }
    template_tags::runs_end_at_the_first_other_character(s, p, Class::Name);
    let e = template_tags::run_end(s, p, Class::Name);
    if e < q {
        assert(template_tags::belongs(s[e], Class::Name));
    } else if q < e {
        assert(template_tags::belongs(s[q], Class::Name));
    }
}

/// Law: the name of an inline partial stands in quotes behind the decorator that starts it.
pub proof fn inline_names_stand_in_quotes(s: Seq<char>, i: int, q: int, e: int)
    requires
        0 <= i,
        q == i + 11,
        q < e < s.len(),
        s.subrange(i, q) == "{{#*inline "@,
        s[q] == '"' && s[e] == '"',
        forall|k: int| q < k < e ==> s[k] != '"' && s[k] != '\\',
    ensures
        inline_name(s, i) == Some(s.subrange(q + 1, e)),
{
    reveal_strlit("{{#*inline ");
    let head = s.subrange(i, q);
    assert(head[0] == s[i] && head[1] == s[i + 1] && head[2] == s[i + 2] && head[3] == s[i + 3]);
    assert(head[4] == s[i + 4] && head[5] == s[i + 5] && head[6] == s[i + 6] && head[7] == s[i + 7]);
    assert(head[8] == s[i + 8] && head[9] == s[i + 9] && head[10] == s[i + 10]);
    assert(s[i + 3] == '*' && s[i + 4] == 'i' && s[i + 9] == 'e' && s[i + 10] == ' ');
    reveal_with_fuel(template_tags::run_end, 8);
    assert(template_tags::sign_index(s, i) == i + 3);
    assert(template_tags::name_index(s, i) == i + 4);
    assert(template_tags::run_end(s, i + 4, Class::Symbol) == i + 10);
    assert(template_tags::run_end(s, i + 10, Class::Gap) == q);
    template_tags::strings_end_behind_their_quote(s, q + 1, e, '"');
    assert forall|k: int| q + 1 <= k < e + 1 implies s[k] != '\\' by {
        if k == e {
            assert(s[k] == '"');
        }
    }
}

/// Law: an inclusion may mean an inline partial that has its name, or any of them where either
/// name is not given in plain letters.
pub proof fn inclusions_mean_partials_by_name(s: Seq<char>, tags: Seq<(int, Kind)>, k: int, m: int)
    ensures
        !(tags[m].1 is Inline) ==> !may_mean(s, tags, k, m),
        tags[m].1 is Inline && included_name(s, tags[k].0) == inline_name(s, tags[m].0) ==> may_mean(
            s,
            tags,
            k,
            m,
        ),
        tags[m].1 is Inline && (included_name(s, tags[k].0) is None || inline_name(
            s,
            tags[m].0,
        ) is None) ==> may_mean(s, tags, k, m),
        (included_name(s, tags[k].0) matches Some(a) && inline_name(s, tags[m].0) matches Some(b)
            && a != b) ==> !may_mean(s, tags, k, m),
{
}

/// Law: a name that an inclusion gives in single quotes is taken with its quotes.
pub proof fn quoted_names_keep_their_quotes(s: Seq<char>, i: int, j: int)
    requires
        0 <= i,
        i + 4 <= j < s.len(),
        s[i] == '{' && s[i + 1] == '{' && s[i + 2] == '>' && s[i + 3] == '\'',
        s[j] == '\'',
        forall|k: int| i + 4 <= k < j ==> s[k] != '\'' && s[k] != '\\',
    ensures
        included_name(s, i) == Some(s.subrange(i + 3, j + 1)),
        !is_computed(s, i),
{
    assert(template_tags::sign_index(s, i) == i + 2);
    assert(template_tags::name_index(s, i) == i + 3);
    template_tags::strings_end_behind_their_quote(s, i + 4, j, '\'');
}

} // verus!
