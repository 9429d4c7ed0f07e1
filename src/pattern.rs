use vstd::prelude::*;

use crate::text::{chars_of, occurs_at, occurs_at_exec, replaced, string_of};
use crate::wrap::slice_of;

verus! {

#[verifier::external_type_specification]
#[verifier::external_body]
pub struct ExRegex(regex::Regex);

#[verifier::external_type_specification]
#[verifier::external_body]
pub struct ExRegexError(regex::Error);

/// Characters that have a meaning of their own in a regular expression.
pub open spec fn is_meta(c: char) -> bool {
    c == '\\' || c == '.' || c == '+' || c == '*' || c == '?' || c == '(' || c == ')' || c == '|'
        || c == '[' || c == ']' || c == '{' || c == '}' || c == '^' || c == '$' || c == '#'
        || c == '&' || c == '-' || c == '~'
}

/// `s` with a backslash before each meta character, so that a regular
/// expression made of it matches `s` literally.
pub open spec fn escaped(s: Seq<char>) -> Seq<char>
    decreases s.len(),
{
    if s.len() == 0 {
        s
    } else {
        (if is_meta(s[0]) { seq!['\\', s[0]] } else { seq![s[0]] }) + escaped(s.drop_first())
    }
}

/// Relies on `regex::escape`: a backslash before each meta character, all
/// other characters kept.
#[verifier::external_body]
fn regex_escape(s: &str) -> (r: String)
    ensures
        r@ == escaped(s@),
{
    regex::escape(s)
}

/// The piece of pattern that matches exactly four ASCII digits.
pub open spec fn year_class() -> Seq<char> {
    "[0-9]{4}"@
}

/// The pattern that matches the fragments in order, with four digits
/// between each two of them.
pub open spec fn year_regex_source(frags: Seq<Seq<char>>) -> Seq<char>
    decreases frags.len(),
{
    if frags.len() == 0 {
        Seq::empty()
    } else if frags.len() == 1 {
        escaped(frags[0])
    } else {
        escaped(frags[0]) + year_class() + year_regex_source(frags.drop_first())
    }
}

/// Four ASCII digits.
pub open spec fn is_four_digits(y: Seq<char>) -> bool {
    y.len() == 4 && forall|i: int| 0 <= i < 4 ==> '0' <= #[trigger] y[i] <= '9'
}

/// `t` is the fragments in order with four digits between each two.
pub open spec fn year_filled(frags: Seq<Seq<char>>, t: Seq<char>) -> bool
    decreases frags.len(),
{
    if frags.len() == 0 {
        false
    } else if frags.len() == 1 {
        t == frags[0]
    } else {
        let n: int = frags[0].len() as int;
        &&& t.len() >= n + 4
        &&& t.subrange(0, n) == frags[0]
        &&& is_four_digits(t.subrange(n, n + 4))
        &&& year_filled(frags.drop_first(), t.subrange(n + 4, t.len() as int))
    }
}

/// Some stretch `text[i..j]` is the fragments filled with years.
pub open spec fn has_year_match(frags: Seq<Seq<char>>, text: Seq<char>) -> bool {
    exists|i: int, j: int| 0 <= i <= j <= text.len() && year_filled(frags, #[trigger] text.subrange(i, j))
}

/// The fragments joined by the given years.
pub open spec fn joined_with(frags: Seq<Seq<char>>, years: Seq<Seq<char>>) -> Seq<char>
    decreases frags.len(),
{
    if frags.len() <= 1 {
        if frags.len() == 1 { frags[0] } else { Seq::empty() }
    } else {
        frags[0] + years[0] + joined_with(frags.drop_first(), years.drop_first())
    }
}

/// Filling the fragments with any years gives a text that the pattern
/// over those fragments matches.
pub proof fn lemma_years_fill_pattern(frags: Seq<Seq<char>>, years: Seq<Seq<char>>)
    requires
        frags.len() >= 1,
        years.len() + 1 == frags.len(),
        forall|i: int| 0 <= i < years.len() ==> is_four_digits(#[trigger] years[i]),
    ensures
        year_filled(frags, joined_with(frags, years)),
        has_year_match(frags, joined_with(frags, years)),
    decreases frags.len(),
{
    let t = joined_with(frags, years);
    if frags.len() > 1 {
        let fs = frags.drop_first();
        let ys = years.drop_first();
        assert forall|i: int| 0 <= i < ys.len() implies is_four_digits(#[trigger] ys[i]) by {
            assert(ys[i] == years[i + 1]);
        }
        lemma_years_fill_pattern(fs, ys);
        let n: int = frags[0].len() as int;
        assert(is_four_digits(years[0]));
        assert(t.subrange(0, n) =~= frags[0]);
        assert(t.subrange(n, n + 4) =~= years[0]);
        assert(t.subrange(n + 4, t.len() as int) =~= joined_with(fs, ys));
    }
    assert(t.subrange(0, t.len() as int) =~= t);
}

/// `t` is wholly a match of the pattern `source`, read as fragments joined
/// by four-digit years.
pub open spec fn source_spans(source: Seq<char>, t: Seq<char>) -> bool {
    forall|frags: Seq<Seq<char>>| frags.len() >= 1 && source == #[trigger] year_regex_source(frags) ==> year_filled(frags, t)
}

/// The pattern `source`, read as fragments joined by four-digit years,
/// matches nowhere in `t`.
pub open spec fn source_misses(source: Seq<char>, t: Seq<char>) -> bool {
    forall|frags: Seq<Seq<char>>| frags.len() >= 1 && source == #[trigger] year_regex_source(frags) ==> !has_year_match(frags, t)
}

/// No match of the pattern `source` in `t` starts before `s`.
pub open spec fn source_none_before(source: Seq<char>, t: Seq<char>, s: int) -> bool {
    forall|frags: Seq<Seq<char>>| frags.len() >= 1 && source == #[trigger] year_regex_source(frags) ==>
        forall|i: int, j: int| 0 <= i < s && i <= j <= t.len() ==> !year_filled(frags, #[trigger] t.subrange(i, j))
}

/// A compiled pattern together with its source text.
pub struct OutdatedPattern {
    source: String,
    regex: regex::Regex,
}

/// Why a pattern could not be built.
#[derive(Debug)]
pub enum PatternError {
    /// The regular expression engine refused the pattern.
    Compile,
}

impl OutdatedPattern {
    /// The source text of the pattern.
    pub closed spec fn pattern(&self) -> Seq<char> {
        self.source@
    }

    /// The source text of the pattern.
    pub fn as_str(&self) -> (r: &str)
        ensures
            r@ == self.pattern(),
    {
        self.source.as_str()
    }

    /// `t` is wholly a match of the pattern.
    pub open spec fn spans(&self, t: Seq<char>) -> bool {
        source_spans(self.pattern(), t)
    }

    /// The pattern matches nowhere in `t`.
    pub open spec fn misses(&self, t: Seq<char>) -> bool {
        source_misses(self.pattern(), t)
    }

    /// The leftmost match of the pattern in `text`, as character positions.
    pub fn find(&self, text: &str) -> (r: Option<(usize, usize)>)
        ensures
            match r {
                Some((s, e)) => s <= e <= text@.len() && self.spans(text@.subrange(s as int, e as int))
                    && source_none_before(self.pattern(), text@, s as int),
                None => self.misses(text@),
            },
    {
        regex_find(self, text)
    }

    /// Whether the pattern matches somewhere in `text`.
    pub fn is_match(&self, text: &str) -> (r: bool)
        ensures
            forall|frags: Seq<Seq<char>>| frags.len() >= 1 && self.pattern() == #[trigger] year_regex_source(frags) ==> r == has_year_match(frags, text@),
    {
        regex_is_match(self, text)
    }
}

/// Whether the regular expression engine accepts `source` (its syntax and
/// its default size limits); a function of the source alone.
pub uninterp spec fn regex_compiles(source: Seq<char>) -> bool;

/// Relies on `regex::Regex::new`: it succeeds exactly when the engine
/// accepts the source, and the regex is then compiled from exactly that
/// source, which the result keeps beside it.
#[verifier::external_body]
fn compile(source: String) -> (r: Result<OutdatedPattern, regex::Error>)
    ensures
        r is Ok <==> regex_compiles(source@),
        r matches Ok(p) ==> p.pattern() == source@,
{
    regex::Regex::new(&source).map(|regex| OutdatedPattern { source, regex })
}

/// Relies on `regex::Regex::is_match`: true exactly when the regex matches
/// somewhere in the haystack. A pattern of regex-escaped literal fragments
/// joined by `[0-9]{4}` matches where the fragments stand in order with
/// four ASCII digits between each two.
#[verifier::external_body]
fn regex_is_match(p: &OutdatedPattern, text: &str) -> (r: bool)
    ensures
        forall|frags: Seq<Seq<char>>| frags.len() >= 1 && p.pattern() == #[trigger] year_regex_source(frags) ==> r == has_year_match(frags, text@),
{
    p.regex.is_match(text)
}

/// Relies on `regex::Regex::find`: the leftmost match, if any, as
/// character positions; for a pattern of regex-escaped literal fragments joined by
/// `[0-9]{4}`, a match is a stretch where the fragments stand in order
/// with four ASCII digits between each two.
#[verifier::external_body]
fn regex_find(p: &OutdatedPattern, text: &str) -> (r: Option<(usize, usize)>)
    ensures
        match r {
            Some((s, e)) => s <= e <= text@.len() && p.spans(text@.subrange(s as int, e as int))
                && source_none_before(p.pattern(), text@, s as int),
            None => p.misses(text@),
        },
{
    p.regex.find(text).map(|m| (text[..m.start()].chars().count(), text[..m.end()].chars().count()))
}

/// The first index from `k` on where `p` occurs in `s`, or -1.
pub open spec fn first_occurrence(s: Seq<char>, p: Seq<char>, k: int) -> int
    decreases s.len() + 1 - k,
{
    if k < 0 || k > s.len() {
        -1
    } else if occurs_at(s, p, k) {
        k
    } else {
        first_occurrence(s, p, k + 1)
    }
}

/// The pieces of `s` around each occurrence of the non-empty `p`, scanning
/// from the left: one more piece than occurrences.
pub open spec fn split_on(s: Seq<char>, p: Seq<char>) -> Seq<Seq<char>>
    decreases s.len(),
{
    let k = first_occurrence(s, p, 0);
    if p.len() > 0 && 0 <= k && k + p.len() <= s.len() {
        seq![s.subrange(0, k)] + split_on(s.subrange(k + p.len(), s.len() as int), p)
    } else {
        seq![s]
    }
}

proof fn lemma_first_occurrence(s: Seq<char>, p: Seq<char>, k: int)
    requires
        0 <= k,
    ensures
        first_occurrence(s, p, k) == -1 || (k <= first_occurrence(s, p, k) && occurs_at(s, p, first_occurrence(s, p, k))),
    decreases s.len() + 1 - k,
{
    if k <= s.len() && !occurs_at(s, p, k) {
        lemma_first_occurrence(s, p, k + 1);
    }
}

proof fn lemma_split_nonempty(s: Seq<char>, p: Seq<char>)
    ensures
        split_on(s, p).len() >= 1,
    decreases s.len(),
{
    let k = first_occurrence(s, p, 0);
    if p.len() > 0 && 0 <= k && k + p.len() <= s.len() {
        lemma_split_nonempty(s.subrange(k + p.len(), s.len() as int), p);
    }
}

fn first_occurrence_exec(s: &Vec<char>, p: &Vec<char>) -> (r: Option<usize>)
    ensures
        match r {
            Some(k) => k as int == first_occurrence(s@, p@, 0) && k <= s@.len(),
            None => first_occurrence(s@, p@, 0) == -1,
        },
{
    let mut k: usize = 0;
    while k <= s.len()
        invariant
            k <= s@.len() + 1,
            first_occurrence(s@, p@, k as int) == first_occurrence(s@, p@, 0),
        decreases s@.len() + 1 - k,
    {
        if occurs_at_exec(s, p, k) {
            return Some(k);
        }
        if k == s.len() {
            assert(first_occurrence(s@, p@, k + 1) == -1);
            return None;
        }
        k = k + 1;
    }
    None
}

proof fn lemma_source_cons(a: Seq<char>, rest: Seq<Seq<char>>)
    requires
        rest.len() >= 1,
    ensures
        year_regex_source(seq![a] + rest) == escaped(a) + year_class() + year_regex_source(rest),
{
    assert((seq![a] + rest).drop_first() =~= rest);
}

/// The source of the pattern that matches `text` with four digits wherever
/// the non-empty `marker` stands in it.
pub fn year_varying_source(text: &str, marker: &str) -> (r: String)
    requires
        marker@.len() > 0,
    ensures
        r@ == year_regex_source(split_on(text@, marker@)),
{
    let s = chars_of(text);
    let p = chars_of(marker);
    let class = chars_of("[0-9]{4}");
    let mut out: Vec<char> = Vec::new();
    let mut rest = s.clone();
    assert(rest@ == text@);
    loop
        invariant_except_break
            out@ + year_regex_source(split_on(rest@, p@)) == year_regex_source(split_on(text@, p@)),
        invariant
            p@ == marker@,
            p@.len() > 0,
            class@ == year_class(),
        ensures
            out@ == year_regex_source(split_on(text@, p@)),
        decreases rest@.len(),
    {
        proof {
            lemma_first_occurrence(rest@, p@, 0);
        }
        let ghost before = out@;
        match first_occurrence_exec(&rest, &p) {
            Some(k) => {
                assert(occurs_at(rest@, p@, k as int));
                assert(k + p.len() <= rest.len());
                let head = slice_of(&rest, 0, k);
                let tail = slice_of(&rest, k + p.len(), rest.len());
                let e = chars_of(regex_escape(string_of(&head).as_str()).as_str());
                out.extend_from_slice(e.as_slice());
                out.extend_from_slice(class.as_slice());
                proof {
                    lemma_split_nonempty(tail@, p@);
                    lemma_source_cons(head@, split_on(tail@, p@));
                    assert(before + (escaped(head@) + year_class() + year_regex_source(split_on(tail@, p@)))
                        =~= out@ + year_regex_source(split_on(tail@, p@)));
                }
                rest = tail;
            },
            None => {
                let e = chars_of(regex_escape(string_of(&rest).as_str()).as_str());
                out.extend_from_slice(e.as_slice());
                assert(split_on(rest@, p@) =~= seq![rest@]);
                assert(out@ =~= before + year_regex_source(split_on(rest@, p@)));
                break;
            },
        }
    }
    string_of(&out)
}

/// Compiles the pattern over the pieces of `text` around each `marker`.
pub fn year_varying_pattern(text: &str, marker: &str) -> (r: Result<OutdatedPattern, PatternError>)
    requires
        marker@.len() > 0,
    ensures
        r is Ok <==> regex_compiles(year_regex_source(split_on(text@, marker@))),
        r matches Ok(p) ==> p.pattern() == year_regex_source(split_on(text@, marker@)),
{
    let source = year_varying_source(text, marker);
    match compile(source) {
        Ok(p) => Ok(p),
        Err(_) => Err(PatternError::Compile),
    }
}

/// Whitespace as `char::is_whitespace` has it (Unicode `White_Space`).
pub open spec fn is_white(c: char) -> bool {
    c == ' ' || c == '\t' || c == '\n' || c == '\x0B' || c == '\x0C' || c == '\r' || c == '\u{85}'
        || c == '\u{A0}' || c == '\u{1680}' || ('\u{2000}' <= c && c <= '\u{200A}') || c == '\u{2028}'
        || c == '\u{2029}' || c == '\u{202F}' || c == '\u{205F}' || c == '\u{3000}'
}

/// `s` without its trailing whitespace.
pub open spec fn trimmed_end(s: Seq<char>) -> Seq<char>
    decreases s.len(),
{
    if s.len() > 0 && is_white(s.last()) {
        trimmed_end(s.drop_last())
    } else {
        s
    }
}

/// Removes trailing whitespace.
pub fn trim_end(text: &str) -> (r: String)
    ensures
        r@ == trimmed_end(text@),
{
    let s = chars_of(text);
    let mut n: usize = s.len();
    assert(s@.subrange(0, n as int) =~= s@);
    while n > 0
        invariant
            n <= s@.len(),
            trimmed_end(s@.subrange(0, n as int)) == trimmed_end(s@),
        ensures
            n == 0 || !is_white(s@[n - 1]),
        decreases n,
    {
        let c = s[n - 1];
        let white = c == ' ' || c == '\t' || c == '\n' || c == '\x0B' || c == '\x0C' || c == '\r' || c == '\u{85}'
            || c == '\u{A0}' || c == '\u{1680}' || ('\u{2000}' <= c && c <= '\u{200A}') || c == '\u{2028}'
            || c == '\u{2029}' || c == '\u{202F}' || c == '\u{205F}' || c == '\u{3000}';
        if !white {
            break;
        }
        assert(s@.subrange(0, n as int).drop_last() =~= s@.subrange(0, n - 1));
        n = n - 1;
    }
    assert(s@ =~= text@);
    let kept = slice_of(&s, 0, n);
    assert(trimmed_end(kept@) == kept@);
    string_of(&kept)
}

proof fn lemma_first_occurrence_is_first(s: Seq<char>, p: Seq<char>, k: int, j: int)
    requires
        0 <= k <= j,
        first_occurrence(s, p, k) == -1 || j < first_occurrence(s, p, k),
    ensures
        !occurs_at(s, p, j),
    decreases j - k,
{
    if k < j && k <= s.len() && !occurs_at(s, p, k) {
        lemma_first_occurrence_is_first(s, p, k + 1, j);
    }
}

proof fn lemma_occurs_shift(s: Seq<char>, p: Seq<char>, j: int)
    requires
        0 <= j,
        s.len() >= 1,
    ensures
        occurs_at(s.subrange(1, s.len() as int), p, j) == occurs_at(s, p, j + 1),
{
    let t = s.subrange(1, s.len() as int);
    if j + p.len() <= t.len() {
        assert(t.subrange(j, j + p.len()) =~= s.subrange(j + 1, j + 1 + p.len()));
    }
}

/// Where the first occurrence of `p` in `s` is at `k`, replacing walks
/// over the first `k` characters unchanged.
proof fn lemma_replaced_prefix(s: Seq<char>, p: Seq<char>, r: Seq<char>, k: int)
    requires
        p.len() > 0,
        0 <= k <= s.len(),
        forall|j: int| 0 <= j < k ==> !#[trigger] occurs_at(s, p, j),
    ensures
        replaced(s, p, r) == s.subrange(0, k) + replaced(s.subrange(k, s.len() as int), p, r),
    decreases k,
{
    if k > 0 {
        let t = s.subrange(1, s.len() as int);
        assert forall|j: int| 0 <= j < k - 1 implies !#[trigger] occurs_at(t, p, j) by {
            lemma_occurs_shift(s, p, j);
            assert(!occurs_at(s, p, j + 1));
        }
        lemma_replaced_prefix(t, p, r, k - 1);
        assert(!occurs_at(s, p, 0));
        assert(t.subrange(k - 1, t.len() as int) =~= s.subrange(k, s.len() as int));
        assert(seq![s[0]] + t.subrange(0, k - 1) =~= s.subrange(0, k));
        assert(replaced(s, p, r) == seq![s[0]] + replaced(t, p, r));
        assert(seq![s[0]] + (t.subrange(0, k - 1) + replaced(s.subrange(k, s.len() as int), p, r))
            =~= s.subrange(0, k) + replaced(s.subrange(k, s.len() as int), p, r));
    } else {
        assert(s.subrange(0, 0) + replaced(s, p, r) =~= replaced(s, p, r));
        assert(s.subrange(0, s.len() as int) =~= s);
    }
}

/// Joining the pieces of `s` around `p` with `r` is replacing each `p` in
/// `s` by `r`.
pub proof fn lemma_join_split_is_replace(s: Seq<char>, p: Seq<char>, r: Seq<char>)
    requires
        p.len() > 0,
    ensures
        split_on(s, p).len() >= 1,
        joined_with(split_on(s, p), Seq::new((split_on(s, p).len() - 1) as nat, |i: int| r)) == replaced(s, p, r),
    decreases s.len(),
{
    lemma_split_nonempty(s, p);
    lemma_first_occurrence(s, p, 0);
    let k = first_occurrence(s, p, 0);
    if 0 <= k && k + p.len() <= s.len() {
        let tail = s.subrange(k + p.len(), s.len() as int);
        lemma_join_split_is_replace(tail, p, r);
        lemma_split_nonempty(tail, p);
        let rest = split_on(tail, p);
        let frags = split_on(s, p);
        assert(frags == seq![s.subrange(0, k)] + rest);
        assert(frags.drop_first() =~= rest);
        let ys = Seq::new((frags.len() - 1) as nat, |i: int| r);
        assert(ys.drop_first() =~= Seq::new((rest.len() - 1) as nat, |i: int| r));
        assert forall|j: int| 0 <= j < k implies !#[trigger] occurs_at(s, p, j) by {
            lemma_first_occurrence_is_first(s, p, 0, j);
        }
        lemma_replaced_prefix(s, p, r, k);
        let after = s.subrange(k, s.len() as int);
        assert(occurs_at(after, p, 0)) by {
            assert(after.subrange(0, p.len() as int) =~= s.subrange(k, k + p.len()));
        }
        assert(after.subrange(p.len() as int, after.len() as int) =~= tail);
        assert(replaced(after, p, r) == r + replaced(tail, p, r));
        assert(joined_with(frags, ys) == s.subrange(0, k) + r + joined_with(rest, ys.drop_first()));
        assert(s.subrange(0, k) + r + replaced(tail, p, r) =~= s.subrange(0, k) + (r + replaced(tail, p, r)));
    } else {
        assert forall|j: int| 0 <= j < s.len() + 1 implies !#[trigger] occurs_at(s, p, j) by {
            lemma_first_occurrence_is_first(s, p, 0, j);
        }
        lemma_replaced_prefix(s, p, r, s.len() as int);
        assert(s.subrange(s.len() as int, s.len() as int) =~= Seq::<char>::empty());
        assert(replaced(Seq::<char>::empty(), p, r) == Seq::<char>::empty());
        assert(s.subrange(0, s.len() as int) + Seq::<char>::empty() =~= s);
    }
}

} // verus!
