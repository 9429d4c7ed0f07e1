use vstd::prelude::*;

use crate::comments::Comment;
use crate::pattern::{
    has_year_match, is_four_digits, joined_with, lemma_join_split_is_replace, lemma_years_fill_pattern, split_on, trim_end, trimmed_end, year_filled,
    regex_compiles, year_regex_source, year_varying_pattern, OutdatedPattern, PatternError,
};
use crate::text::{chars_of, contains, contains_exec, replace_all, replaced, string_of, unwrapped, unwrap};

verus! {

/// One copyright holder: a name and, optionally, an e-mail address.
#[derive(Clone)]
pub struct CopyrightHolder {
    pub name: String,
    pub email: Option<String>,
}

/// How a holder is shown: `name` or `name <email>`.
pub open spec fn holder_text(h: CopyrightHolder) -> Seq<char> {
    match h.email {
        Some(e) => h.name@ + " <"@ + e@ + ">"@,
        None => h.name@,
    }
}

/// How a list of holders is shown: their texts joined with `", "`.
pub open spec fn holders_text(hs: Seq<CopyrightHolder>) -> Seq<char>
    decreases hs.len(),
{
    if hs.len() == 0 {
        Seq::empty()
    } else if hs.len() == 1 {
        holder_text(hs[0])
    } else {
        holders_text(hs.drop_last()) + ", "@ + holder_text(hs.last())
    }
}

impl CopyrightHolder {
    /// The display form of this holder.
    pub fn to_string(&self) -> (r: String)
        ensures
            r@ == holder_text(*self),
    {
        let mut a = self.name.clone();
        match &self.email {
            Some(email) => {
                a.append(" <");
                a.append(email.as_str());
                a.append(">");
            },
            None => {},
        }
        a
    }
}

/// The ordered list of copyright holders named in a header.
#[derive(Clone)]
pub struct Authors {
    pub authors: Vec<CopyrightHolder>,
}

impl From<Vec<CopyrightHolder>> for Authors {
    fn from(authors: Vec<CopyrightHolder>) -> (r: Authors)
        ensures
            r.authors@ == authors@,
    {
        Authors { authors }
    }
}

impl vstd::std_specs::convert::FromSpecImpl<Vec<CopyrightHolder>> for Authors {
    open spec fn obeys_from_spec() -> bool {
        true
    }

    open spec fn from_spec(v: Vec<CopyrightHolder>) -> Authors {
        Authors { authors: v }
    }
}

impl Authors {
    /// The display form of the list: empty for no holders, else the holders
    /// joined with `", "`.
    pub fn to_string(&self) -> (r: String)
        ensures
            r@ == holders_text(self.authors@),
    {
        let mut a = String::new();
        let mut i: usize = 0;
        while i < self.authors.len()
            invariant
                i <= self.authors@.len(),
                a@ == holders_text(self.authors@.subrange(0, i as int)),
            decreases self.authors@.len() - i,
        {
            let ghost prefix = self.authors@.subrange(0, i as int);
            let ghost next = self.authors@.subrange(0, i + 1);
            assert(next.drop_last() =~= prefix);
            if i > 0 {
                a.append(", ");
            }
            let h = self.authors[i].to_string();
            a.append(h.as_str());
            proof {
                if i == 0 {
                    assert(a@ =~= holder_text(next[0]));
                } else {
                    assert(a@ =~= holders_text(prefix) + ", "@ + holder_text(next.last()));
                }
            }
            i = i + 1;
        }
        assert(self.authors@.subrange(0, self.authors@.len() as int) =~= self.authors@);
        a
    }
}

/// The decimal digit for `d < 10`.
pub open spec fn digit_char(d: int) -> char {
    (('0' as u8) + d) as char
}

/// The decimal digits of `n`, most significant first.
pub open spec fn decimal(n: nat) -> Seq<char>
    decreases n,
{
    if n < 10 {
        seq![digit_char(n as int)]
    } else {
        decimal(n / 10) + seq![digit_char((n % 10) as int)]
    }
}

/// A calendar year as written in a header: its digits, padded with zeros
/// to four, with a leading minus sign before the common era.
pub open spec fn year_text(y: int) -> Seq<char> {
    let a: nat = if y < 0 { (-y) as nat } else { y as nat };
    let d = decimal(a);
    let pad = if d.len() < 4 { Seq::new((4 - d.len()) as nat, |i: int| '0') } else { Seq::empty() };
    if y < 0 { seq!['-'] + pad + d } else { pad + d }
}

fn push_decimal(n: u32, out: &mut Vec<char>)
    ensures
        final(out)@ == old(out)@ + decimal(n as nat),
    decreases n,
{
    if n >= 10 {
        push_decimal(n / 10, out);
    }
    let d = (n % 10) as u8;
    let c = (('0' as u8) + d) as char;
    out.push(c);
    assert(out@ =~= old(out)@ + decimal(n as nat));
}

/// Writes a year as `year_text` describes.
pub fn format_year(y: i32) -> (r: String)
    ensures
        r@ == year_text(y as int),
{
    let a: u32 = if y < 0 { (0i64 - y as i64) as u32 } else { y as u32 };
    let mut digits: Vec<char> = Vec::new();
    push_decimal(a, &mut digits);
    assert(digits@ =~= decimal(a as nat));
    let mut out: Vec<char> = Vec::new();
    if y < 0 {
        out.push('-');
    }
    let ghost start = out@;
    let mut k: usize = digits.len();
    while k < 4
        invariant
            digits.len() <= k <= 4 || (digits.len() >= 4 && k == digits.len()),
            out@ == start + Seq::new((k - digits.len()) as nat, |i: int| '0'),
        decreases 4 - k,
    {
        out.push('0');
        assert(out@ =~= start + Seq::new((k + 1 - digits.len()) as nat, |i: int| '0'));
        k = k + 1;
    }
    out.extend_from_slice(digits.as_slice());
    proof {
        let pad = if digits@.len() < 4 { Seq::new((4 - digits@.len()) as nat, |i: int| '0') } else { Seq::empty() };
        assert(Seq::new((k - digits.len()) as nat, |i: int| '0') =~= pad);
        if y < 0 {
            assert(start =~= seq!['-']);
            assert(out@ =~= seq!['-'] + pad + digits@);
        } else {
            assert(start =~= Seq::<char>::empty());
            assert(out@ =~= pad + digits@);
        }
    }
    string_of(&out)
}

#[verifier::external_type_specification]
#[verifier::external_body]
pub struct ExSystemTime(std::time::SystemTime);

/// Relies on `std::time::SystemTime::now`: a reading of the system clock.
/// Nothing is promised of its value.
#[verifier::external_body]
fn clock_now() -> (r: std::time::SystemTime) {
    std::time::SystemTime::now()
}

/// Relies on `std::time::SystemTime::duration_since`: the whole seconds
/// from the Unix epoch to `t`, or `None` when `t` is before the epoch.
#[verifier::external_body]
fn seconds_since_epoch(t: &std::time::SystemTime) -> (r: Option<u64>) {
    t.duration_since(std::time::UNIX_EPOCH).ok().map(|d| d.as_secs())
}

/// Relies on chrono's `DateTime::from_timestamp`: the calendar year (UTC)
/// of a Unix time, or `None` outside chrono's range of dates.
#[verifier::external_body]
fn utc_year_of(secs: i64) -> (r: Option<i32>) {
    chrono::DateTime::from_timestamp(secs, 0).map(|d| chrono::Datelike::year(&d))
}

/// The current calendar year, or `None` when the clock cannot be read as
/// a date (a clock set before 1970, or beyond chrono's range).
fn current_year() -> (r: Option<i32>) {
    let now = clock_now();
    match seconds_since_epoch(&now) {
        Some(secs) => {
            if secs <= i64::MAX as u64 {
                utc_year_of(secs as i64)
            } else {
                None
            }
        },
        None => None,
    }
}

/// What a header is rendered with: the identifier, the holders, the year
/// (the current year when absent) and whether to reflow the template.
#[derive(Clone)]
pub struct Context {
    pub ident: String,
    pub authors: Authors,
    pub year: Option<String>,
    pub unwrap_text: bool,
}

impl Context {
    /// `y` is a year this context may render with: its own, or the text of
    /// some current year when it has none.
    pub open spec fn year_options(&self, y: Seq<char>) -> bool {
        match self.year {
            Some(x) => y == x@,
            None => exists|cy: int| y == year_text(cy),
        }
    }

    /// The holders' display form.
    pub fn get_authors(&self) -> (r: String)
        ensures
            r@ == holders_text(self.authors.authors@),
    {
        self.authors.to_string()
    }

    /// The year to render: the given one, else the current year, resolved
    /// at each call; `None` only when there is no given year and the clock
    /// cannot be read.
    pub fn get_year(&self) -> (r: Option<String>)
        ensures
            self.year matches Some(y) ==> r matches Some(x) && x@ == y@,
            r matches Some(x) ==> self.year_options(x@),
    {
        match &self.year {
            Some(year) => Some(year.clone()),
            None => match current_year() {
                Some(y) => Some(format_year(y)),
                None => None,
            },
        }
    }
}

/// The placeholders a template body uses for year, holders and identifier.
/// Plain templates use the bracketed set; SPDX-style ones use the Apache
/// set when the body names `[name of copyright owner]`, else angle-bracket
/// placeholders whose holder placeholder is the first of
/// `<copyright holders>`, `<owner>` that the body contains, or
/// `<name of author>`.
pub open spec fn placeholder_tokens(spdx: bool, content: Seq<char>) -> (Seq<char>, Seq<char>, Seq<char>) {
    if !spdx {
        ("[year]"@, "[name of author]"@, "[ident]"@)
    } else if contains(content, "[name of copyright owner]"@) {
        ("[yyyy]"@, "[name of copyright owner]"@, "[ident]"@)
    } else if contains(content, "<copyright holders>"@) {
        ("<year>"@, "<copyright holders>"@, "<ident>"@)
    } else if contains(content, "<owner>"@) {
        ("<year>"@, "<owner>"@, "<ident>"@)
    } else {
        ("<year>"@, "<name of author>"@, "<ident>"@)
    }
}

proof fn lemma_placeholders_nonempty(spdx: bool, content: Seq<char>)
    ensures
        placeholder_tokens(spdx, content).0.len() > 0,
        placeholder_tokens(spdx, content).1.len() > 0,
        placeholder_tokens(spdx, content).2.len() > 0,
{
    reveal_strlit("[year]");
    reveal_strlit("[name of author]");
    reveal_strlit("[ident]");
    reveal_strlit("[yyyy]");
    reveal_strlit("[name of copyright owner]");
    reveal_strlit("<year>");
    reveal_strlit("<copyright holders>");
    reveal_strlit("<owner>");
    reveal_strlit("<name of author>");
    reveal_strlit("<ident>");
}

/// A license template: its body with placeholders, whether it uses the
/// SPDX placeholder vocabulary, and the context it is rendered with.
#[derive(Clone)]
pub struct Template {
    pub spdx_template: bool,
    pub content: String,
    pub context: Context,
}

impl Template {
    /// The placeholders of this template.
    pub open spec fn tokens(&self) -> (Seq<char>, Seq<char>, Seq<char>) {
        placeholder_tokens(self.spdx_template, self.content@)
    }

    /// The body after the reflow that `ctx` asks for.
    pub open spec fn body(&self, ctx: Context) -> Seq<char> {
        if ctx.unwrap_text {
            unwrapped(self.content@)
        } else {
            self.content@
        }
    }

    /// The body with each placeholder replaced: the year by `year`, the
    /// holders and identifier by those of `ctx`.
    pub open spec fn interpolated(&self, ctx: Context, year: Seq<char>) -> Seq<char> {
        let (y, a, i) = self.tokens();
        replaced(replaced(replaced(self.body(ctx), y, year), a, holders_text(ctx.authors.authors@)), i, ctx.ident@)
    }

    /// The header text of this template for a given year.
    pub open spec fn rendered_with(&self, year: Seq<char>) -> Seq<char> {
        self.interpolated(self.context, year)
    }

    /// A plain (non-SPDX) template over `template`.
    pub fn new(template: &str, context: Context) -> (r: Template)
        ensures
            r.content@ == template@,
            r.context == context,
            !r.spdx_template,
    {
        Template { spdx_template: false, content: template.to_string(), context }
    }

    /// The same template, with the SPDX vocabulary switched on or off.
    pub fn set_spdx_template(self, yes_or_no: bool) -> (r: Template)
        ensures
            r.spdx_template == yes_or_no,
            r.content == self.content,
            r.context == self.context,
    {
        let mut t = self;
        t.spdx_template = yes_or_no;
        t
    }

    /// The placeholders for year, holders and identifier in this template.
    pub fn replacement_tokens(&self) -> (r: (&'static str, &'static str, &'static str))
        ensures
            (r.0@, r.1@, r.2@) == self.tokens(),
    {
        if self.spdx_template {
            let body = chars_of(self.content.as_str());
            if contains_exec(&body, &chars_of("[name of copyright owner]")) {
                ("[yyyy]", "[name of copyright owner]", "[ident]")
            } else if contains_exec(&body, &chars_of("<copyright holders>")) {
                ("<year>", "<copyright holders>", "<ident>")
            } else if contains_exec(&body, &chars_of("<owner>")) {
                ("<year>", "<owner>", "<ident>")
            } else {
                ("<year>", "<name of author>", "<ident>")
            }
        } else {
            ("[year]", "[name of author]", "[ident]")
        }
    }

    /// Renders the body with the holders and identifier of `context` and
    /// the year `year`.
    fn interpolate(&self, context: &Context, year: &str) -> (r: String)
        ensures
            r@ == self.interpolated(*context, year@),
    {
        let (year_repl, author_repl, ident_repl) = self.replacement_tokens();
        proof {
            lemma_placeholders_nonempty(self.spdx_template, self.content@);
        }
        let body = if context.unwrap_text {
            unwrap(self.content.as_str())
        } else {
            self.content.clone()
        };
        let body = chars_of(body.as_str());
        let with_year = replace_all(&body, &chars_of(year_repl), &chars_of(year));
        let authors = context.get_authors();
        let with_authors = replace_all(&with_year, &chars_of(author_repl), &chars_of(authors.as_str()));
        let with_ident = replace_all(&with_authors, &chars_of(ident_repl), &chars_of(context.ident.as_str()));
        string_of(&with_ident)
    }

    /// The header text: the body, reflowed if the context asks for it, with
    /// every placeholder replaced. Without a year in the context the
    /// current year is used; `None` when the clock cannot be read then.
    pub fn render(&self) -> (r: Option<String>)
        ensures
            self.context.year matches Some(y) ==> r matches Some(x) && x@ == self.rendered_with(y@),
            r matches Some(x) ==> exists|y: Seq<char>| self.context.year_options(y) && x@ == self.rendered_with(y),
    {
        match self.context.get_year() {
            Some(year) => {
                let r = self.interpolate(&self.context, year.as_str());
                assert(self.context.year_options(year@) && r@ == self.rendered_with(year@));
                Some(r)
            },
            None => None,
        }
    }
}

/// The mark that stands in for the year while a pattern is built. It is
/// four characters long, as a year is, so that wrapping places it as it
/// would place a year, and it is unlike any license text.
pub open spec fn year_marker() -> Seq<char> {
    "@YR@"@
}

impl Template {
    /// The commented header with the year mark in place of the year, its
    /// trailing whitespace removed when `trim_trailing` is set.
    pub open spec fn marked_header<C: Comment>(&self, commenter: &C, columns: Option<usize>, trim_trailing: bool) -> Seq<char> {
        let h = commenter.commented(self.rendered_with(year_marker()), columns);
        if trim_trailing {
            trimmed_end(h)
        } else {
            h
        }
    }

    /// The pattern source for the commented header with any year: the
    /// pieces of the marked header around each year mark, escaped, joined by
    /// a four-digit class.
    pub open spec fn year_varying_source<C: Comment>(&self, commenter: &C, columns: Option<usize>, trim_trailing: bool) -> Seq<char> {
        year_regex_source(split_on(self.marked_header(commenter, columns, trim_trailing), year_marker()))
    }

    fn build_year_varying_regex<C: Comment>(&self, commenter: &C, columns: Option<usize>, trim_trailing: bool) -> (r: Result<OutdatedPattern, PatternError>)
        ensures
            r is Ok <==> regex_compiles(self.year_varying_source(commenter, columns, trim_trailing)),
            r matches Ok(p) ==> p.pattern() == self.year_varying_source(commenter, columns, trim_trailing),
    {
        let marker = "@YR@";
        proof {
            reveal_strlit("@YR@");
        }
        let interpolated_header = self.interpolate(&self.context, marker);
        let mut rendered = commenter.comment(interpolated_header.as_str(), columns);
        if trim_trailing {
            rendered = trim_end(rendered.as_str());
        }
        year_varying_pattern(rendered.as_str(), marker)
    }

    /// The pattern that matches this template's commented header with any
    /// four-digit year, trailing blank lines included.
    pub fn outdated_license_pattern<C: Comment>(&self, commenter: &C, columns: Option<usize>) -> (r: Result<OutdatedPattern, PatternError>)
        ensures
            r is Ok <==> regex_compiles(self.year_varying_source(commenter, columns, false)),
            r matches Ok(p) ==> p.pattern() == self.year_varying_source(commenter, columns, false),
    {
        self.build_year_varying_regex(commenter, columns, false)
    }

    /// The pattern that matches this template's commented header with any
    /// four-digit year, trailing whitespace left out.
    pub fn outdated_license_trimmed_pattern<C: Comment>(&self, commenter: &C, columns: Option<usize>) -> (r: Result<OutdatedPattern, PatternError>)
        ensures
            r is Ok <==> regex_compiles(self.year_varying_source(commenter, columns, true)),
            r matches Ok(p) ==> p.pattern() == self.year_varying_source(commenter, columns, true),
    {
        self.build_year_varying_regex(commenter, columns, true)
    }
}

/// The outdated-header pattern of a template matches its commented header
/// with any four-digit years put where the year mark stood: reading the
/// pattern as the pieces of the marked header around each mark, the text
/// that joins those pieces with the years is matched in whole.
pub proof fn lemma_outdated_pattern_matches_any_year<C: Comment>(
    t: Template,
    commenter: C,
    columns: Option<usize>,
    trim_trailing: bool,
    years: Seq<Seq<char>>,
)
    requires
        years.len() + 1 == split_on(t.marked_header(&commenter, columns, trim_trailing), year_marker()).len(),
        forall|i: int| 0 <= i < years.len() ==> is_four_digits(#[trigger] years[i]),
    ensures
        ({
            let frags = split_on(t.marked_header(&commenter, columns, trim_trailing), year_marker());
            &&& t.year_varying_source(&commenter, columns, trim_trailing) == year_regex_source(frags)
            &&& year_filled(frags, joined_with(frags, years))
            &&& has_year_match(frags, joined_with(frags, years))
        }),
{
    let frags = split_on(t.marked_header(&commenter, columns, trim_trailing), year_marker());
    lemma_years_fill_pattern(frags, years);
}

/// The outdated-header pattern does not depend on the context's year: two
/// templates that differ in nothing else have the same pattern source.
pub proof fn lemma_outdated_pattern_ignores_year<C: Comment>(
    t1: Template,
    t2: Template,
    commenter: C,
    columns: Option<usize>,
    trim_trailing: bool,
)
    requires
        t1.spdx_template == t2.spdx_template,
        t1.content@ == t2.content@,
        t1.context.ident@ == t2.context.ident@,
        t1.context.authors.authors@ == t2.context.authors.authors@,
        t1.context.unwrap_text == t2.context.unwrap_text,
    ensures
        t1.year_varying_source(&commenter, columns, trim_trailing) == t2.year_varying_source(&commenter, columns, trim_trailing),
{
    assert(t1.rendered_with(year_marker()) == t2.rendered_with(year_marker()));
}

/// The outdated-header pattern of a template matches its marked, commented
/// header once every year mark in it is replaced by one four-digit year.
pub proof fn lemma_outdated_pattern_matches_year_swap<C: Comment>(
    t: Template,
    commenter: C,
    columns: Option<usize>,
    trim_trailing: bool,
    year: Seq<char>,
)
    requires
        is_four_digits(year),
    ensures
        ({
            let h = t.marked_header(&commenter, columns, trim_trailing);
            let frags = split_on(h, year_marker());
            &&& t.year_varying_source(&commenter, columns, trim_trailing) == year_regex_source(frags)
            &&& has_year_match(frags, replaced(h, year_marker(), year))
        }),
{
    reveal_strlit("@YR@");
    let h = t.marked_header(&commenter, columns, trim_trailing);
    let frags = split_on(h, year_marker());
    lemma_join_split_is_replace(h, year_marker(), year);
    let years = Seq::new((frags.len() - 1) as nat, |i: int| year);
    lemma_years_fill_pattern(frags, years);
}

} // verus!
