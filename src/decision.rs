use vstd::prelude::*;

use crate::comments::Comment;
use crate::pattern::{regex_compiles, source_misses, source_none_before, source_spans, OutdatedPattern, PatternError};
use crate::template::Template;
use crate::text::{chars_of, contains, contains_exec, string_of};
use crate::wrap::{first_char_from, first_char_from_exec, lemma_first_char_bounds, slice_of};

verus! {

/// Where a file stands with respect to the header.
#[derive(PartialEq, Eq, Structural, Clone, Copy, Debug)]
pub enum HeaderState {
    /// The file holds the header as it is rendered now; it is left alone.
    Current,
    /// The file held the header with another year; that span was replaced.
    Outdated,
    /// The file held no header; one was inserted.
    Missing,
}

/// The outcome for one file: its state and its new content.
pub struct Decision {
    pub state: HeaderState,
    pub content: String,
}

/// Where a header is inserted: after the first line when the file starts
/// with a `#!` line, else at the very start.
pub open spec fn insertion_point(content: Seq<char>) -> int {
    if content.len() >= 2 && content[0] == '#' && content[1] == '!' {
        let k = first_char_from(content, '\n', 0);
        if k >= 0 { k + 1 } else { content.len() as int }
    } else {
        0
    }
}

/// The state and new content of a file, given the current header and the
/// span, if any, of an outdated header found in it.
pub open spec fn decided(content: Seq<char>, header: Seq<char>, found: Option<(usize, usize)>) -> (HeaderState, Seq<char>) {
    if contains(content, header) {
        (HeaderState::Current, content)
    } else {
        match found {
            Some((s, e)) => (
                HeaderState::Outdated,
                content.subrange(0, s as int) + header + content.subrange(e as int, content.len() as int),
            ),
            None => {
                let k = insertion_point(content);
                (HeaderState::Missing, content.subrange(0, k) + header + content.subrange(k, content.len() as int))
            },
        }
    }
}

/// The position after any leading `#!` line.
pub fn insertion_point_exec(content: &Vec<char>) -> (r: usize)
    ensures
        r as int == insertion_point(content@),
        r <= content@.len(),
{
    if content.len() >= 2 && content[0] == '#' && content[1] == '!' {
        proof {
            lemma_first_char_bounds(content@, '\n', 0);
        }
        match first_char_from_exec(content, '\n', 0) {
            Some(k) => k + 1,
            None => content.len(),
        }
    } else {
        0
    }
}

fn splice(content: &Vec<char>, s: usize, e: usize, header: &Vec<char>) -> (r: Vec<char>)
    requires
        s <= e <= content@.len(),
    ensures
        r@ == content@.subrange(0, s as int) + header@ + content@.subrange(e as int, content@.len() as int),
{
    let mut r = slice_of(content, 0, s);
    r.extend_from_slice(header.as_slice());
    let tail = slice_of(content, e, content.len());
    r.extend_from_slice(tail.as_slice());
    r
}

/// Decides what becomes of a file: left alone when it holds `header`,
/// else the outdated span `found` replaced by `header`, else `header`
/// inserted at the insertion point.
pub fn decide(content: &str, header: &str, found: Option<(usize, usize)>) -> (r: Decision)
    requires
        found matches Some((s, e)) ==> s <= e <= content@.len(),
    ensures
        (r.state, r.content@) == decided(content@, header@, found),
{
    let c = chars_of(content);
    let h = chars_of(header);
    if contains_exec(&c, &h) {
        return Decision { state: HeaderState::Current, content: string_of(&c) };
    }
    match found {
        Some((s, e)) => Decision { state: HeaderState::Outdated, content: string_of(&splice(&c, s, e, &h)) },
        None => {
            let k = insertion_point_exec(&c);
            Decision { state: HeaderState::Missing, content: string_of(&splice(&c, k, k, &h)) }
        },
    }
}

/// What the outcome `d` for a file with `content` must be, given the
/// current `header` and the sources of the outdated pattern and of its
/// trimmed form: left alone exactly when the header is there; else an
/// outdated span replaced by the header: the leftmost match of the
/// untrimmed pattern, or, where that matches nowhere, of the trimmed one;
/// else, when neither pattern matches anywhere, the header inserted.
pub open spec fn settled(content: Seq<char>, header: Seq<char>, outdated: Seq<char>, trimmed: Seq<char>, d: Decision) -> bool {
    &&& (d.state == HeaderState::Current <==> contains(content, header))
    &&& (d.state == HeaderState::Current ==> d.content@ == content)
    &&& (d.state == HeaderState::Outdated ==> exists|s: usize, e: usize| {
        &&& s <= e <= content.len()
        &&& d.content@ == content.subrange(0, s as int) + header + content.subrange(e as int, content.len() as int)
        &&& ({
            ||| source_spans(outdated, content.subrange(s as int, e as int)) && source_none_before(outdated, content, s as int)
            ||| source_misses(outdated, content) && source_spans(trimmed, content.subrange(s as int, e as int))
                && source_none_before(trimmed, content, s as int)
        })
    })
    &&& (d.state == HeaderState::Missing ==> {
        &&& source_misses(outdated, content)
        &&& source_misses(trimmed, content)
        &&& d.content@ == content.subrange(0, insertion_point(content)) + header + content.subrange(
            insertion_point(content),
            content.len() as int,
        )
    })
}

/// Decides what becomes of a file, looking for an outdated header with
/// `outdated` first and `trimmed` after.
pub fn decide_with_patterns(content: &str, header: &str, outdated: &OutdatedPattern, trimmed: &OutdatedPattern) -> (r: Decision)
    ensures
        settled(content@, header@, outdated.pattern(), trimmed.pattern(), r),
{
    let found = match outdated.find(content) {
        Some(span) => Some(span),
        None => trimmed.find(content),
    };
    decide(content, header, found)
}

/// Why a file could not be decided.
#[derive(Debug)]
pub enum LicenseError {
    /// The context has no year and the clock could not be read.
    Clock,
    /// An outdated-header pattern could not be compiled.
    Pattern(PatternError),
}

/// Renders `template`, comments it with `commenter` and decides what
/// becomes of a file with `content`. The header is the commented
/// rendering for the context's year (some current year when it has none);
/// the outdated patterns are those of the template for the same style.
pub fn license_content<C: Comment>(template: &Template, commenter: &C, columns: Option<usize>, content: &str) -> (r: Result<Decision, LicenseError>)
    ensures
        r is Ok ==> regex_compiles(template.year_varying_source(commenter, columns, false)) && regex_compiles(
            template.year_varying_source(commenter, columns, true),
        ),
        template.context.year is Some ==> (r is Ok <==> (regex_compiles(template.year_varying_source(commenter, columns, false))
            && regex_compiles(template.year_varying_source(commenter, columns, true)))),
        r matches Err(LicenseError::Clock) ==> template.context.year is None,
        r matches Ok(d) ==> exists|y: Seq<char>| {
            &&& template.context.year_options(y)
            &&& settled(
                content@,
                commenter.commented(template.rendered_with(y), columns),
                template.year_varying_source(commenter, columns, false),
                template.year_varying_source(commenter, columns, true),
                d,
            )
        },
{
    let rendered = match template.render() {
        Some(text) => text,
        None => return Err(LicenseError::Clock),
    };
    let header = commenter.comment(rendered.as_str(), columns);
    let outdated = match template.outdated_license_pattern(commenter, columns) {
        Ok(p) => p,
        Err(e) => return Err(LicenseError::Pattern(e)),
    };
    let trimmed = match template.outdated_license_trimmed_pattern(commenter, columns) {
        Ok(p) => p,
        Err(e) => return Err(LicenseError::Pattern(e)),
    };
    Ok(decide_with_patterns(content, header.as_str(), &outdated, &trimmed))
}

/// The paths, in order, whose state is not `Current`.
pub open spec fn unlicensed(paths: Seq<Seq<char>>, states: Seq<HeaderState>) -> Seq<Seq<char>>
    decreases paths.len(),
{
    if paths.len() == 0 || states.len() == 0 {
        Seq::empty()
    } else {
        let rest = unlicensed(paths.drop_last(), states.drop_last());
        if states.last() == HeaderState::Current {
            rest
        } else {
            rest.push(paths.last())
        }
    }
}

/// The views of a list of strings.
pub open spec fn views(v: Seq<String>) -> Seq<Seq<char>> {
    v.map_values(|p: String| p@)
}

/// The paths whose file did not already hold the current header, in order.
pub fn not_licensed(paths: &Vec<String>, states: &Vec<HeaderState>) -> (r: Vec<String>)
    requires
        paths@.len() == states@.len(),
    ensures
        views(r@) == unlicensed(views(paths@), states@),
{
    let mut r: Vec<String> = Vec::new();
    let mut i: usize = 0;
    while i < paths.len()
        invariant
            i <= paths@.len() == states@.len(),
            views(r@) == unlicensed(views(paths@.subrange(0, i as int)), states@.subrange(0, i as int)),
        decreases paths@.len() - i,
    {
        let ghost ps = views(paths@.subrange(0, i + 1));
        let ghost ss = states@.subrange(0, i + 1);
        assert(ps.drop_last() =~= views(paths@.subrange(0, i as int)));
        assert(ss.drop_last() =~= states@.subrange(0, i as int));
        if states[i] != HeaderState::Current {
            let p = paths[i].clone();
            r.push(p);
            assert(views(r@) =~= unlicensed(ps, ss));
        } else {
            assert(views(r@) =~= unlicensed(ps, ss));
        }
        i = i + 1;
    }
    assert(paths@.subrange(0, paths@.len() as int) =~= paths@);
    assert(states@.subrange(0, states@.len() as int) =~= states@);
    r
}

} // verus!
