use vstd::prelude::*;

use crate::text::{chars_of, string_of};
use crate::wrap::{
    break_index_exec, first_char_from, first_char_from_exec, lemma_first_char_bounds,
    slice_of, wrap_line,
};

verus! {

/// The lines of `s`: the pieces between line breaks, the last one
/// possibly empty.
pub open spec fn split_lines(s: Seq<char>) -> Seq<Seq<char>>
    decreases s.len(),
{
    let k = first_char_from(s, '\n', 0);
    if 0 <= k < s.len() {
        seq![s.subrange(0, k)] + split_lines(s.subrange(k + 1, s.len() as int))
    } else {
        seq![s]
    }
}

/// The pieces one line is laid out in: wrapped to `width` when given.
pub open spec fn pieces(line: Seq<char>, width: Option<nat>) -> Seq<Seq<char>> {
    match width {
        Some(w) => wrap_line(line, w),
        None => seq![line],
    }
}

/// One output line: the piece after the prefix and a space (the prefix
/// alone for an empty piece), or the bare piece without a prefix.
pub open spec fn decorated(prefixed: bool, prefix: Seq<char>, piece: Seq<char>) -> Seq<char> {
    if !prefixed {
        piece + seq!['\n']
    } else if piece.len() == 0 {
        prefix + seq!['\n']
    } else {
        prefix + seq![' '] + piece + seq!['\n']
    }
}

/// The output lines of a list of pieces.
pub open spec fn flat_pieces(prefixed: bool, prefix: Seq<char>, ps: Seq<Seq<char>>) -> Seq<char>
    decreases ps.len(),
{
    if ps.len() == 0 {
        Seq::empty()
    } else {
        decorated(prefixed, prefix, ps[0]) + flat_pieces(prefixed, prefix, ps.drop_first())
    }
}

/// The output lines of a list of lines, each wrapped to `width`.
pub open spec fn flat_lines(prefixed: bool, prefix: Seq<char>, ls: Seq<Seq<char>>, width: Option<nat>) -> Seq<char>
    decreases ls.len(),
{
    if ls.len() == 0 {
        Seq::empty()
    } else {
        flat_pieces(prefixed, prefix, pieces(ls[0], width)) + flat_lines(prefixed, prefix, ls.drop_first(), width)
    }
}

/// The commented lines of `text`, each line wrapped to `width` and
/// decorated with the prefix.
pub open spec fn comment_body(prefixed: bool, prefix: Seq<char>, text: Seq<char>, width: Option<nat>) -> Seq<char> {
    flat_lines(prefixed, prefix, split_lines(text), width)
}

/// An optional width as a natural number.
pub open spec fn nat_width(width: Option<usize>) -> Option<nat> {
    match width {
        Some(w) => Some(w as nat),
        None => None,
    }
}

/// `n` line breaks.
pub open spec fn newlines(n: nat) -> Seq<char> {
    Seq::new(n, |i: int| '\n')
}

/// The room left for text on a line of `columns` after a prefix of
/// `prefix_len` characters and a space; never less than one.
pub open spec fn text_width(columns: Option<usize>, prefix_len: nat) -> Option<nat> {
    match columns {
        Some(c) => Some(if c > prefix_len + 1 { (c - prefix_len - 1) as nat } else { 1nat }),
        None => None,
    }
}

proof fn lemma_flat_pieces_cons(prefixed: bool, prefix: Seq<char>, a: Seq<char>, rest: Seq<Seq<char>>)
    ensures
        flat_pieces(prefixed, prefix, seq![a] + rest) == decorated(prefixed, prefix, a) + flat_pieces(prefixed, prefix, rest),
{
    assert((seq![a] + rest).drop_first() =~= rest);
}

proof fn lemma_flat_lines_cons(prefixed: bool, prefix: Seq<char>, a: Seq<char>, rest: Seq<Seq<char>>, width: Option<nat>)
    ensures
        flat_lines(prefixed, prefix, seq![a] + rest, width) == flat_pieces(prefixed, prefix, pieces(a, width))
            + flat_lines(prefixed, prefix, rest, width),
{
    assert((seq![a] + rest).drop_first() =~= rest);
}

fn push_decorated(out: &mut Vec<char>, prefixed: bool, prefix: &Vec<char>, piece: &Vec<char>)
    ensures
        final(out)@ == old(out)@ + decorated(prefixed, prefix@, piece@),
{
    if !prefixed {
        out.extend_from_slice(piece.as_slice());
        out.push('\n');
        assert(out@ =~= old(out)@ + decorated(prefixed, prefix@, piece@));
    } else if piece.len() == 0 {
        out.extend_from_slice(prefix.as_slice());
        out.push('\n');
        assert(out@ =~= old(out)@ + decorated(prefixed, prefix@, piece@));
    } else {
        out.extend_from_slice(prefix.as_slice());
        out.push(' ');
        out.extend_from_slice(piece.as_slice());
        out.push('\n');
        assert(out@ =~= old(out)@ + decorated(prefixed, prefix@, piece@));
    }
}

fn push_line(out: &mut Vec<char>, prefixed: bool, prefix: &Vec<char>, line: &Vec<char>, width: Option<usize>)
    ensures
        final(out)@ == old(out)@ + flat_pieces(prefixed, prefix@, pieces(line@, nat_width(width))),
{
    let ghost pre = prefix@;
    match width {
        None => {
            push_decorated(out, prefixed, prefix, line);
            proof {
                lemma_flat_pieces_cons(prefixed, pre, line@, Seq::empty());
                assert(seq![line@] + Seq::<Seq<char>>::empty() =~= seq![line@]);
                assert(out@ =~= old(out)@ + flat_pieces(prefixed, pre, seq![line@]));
            }
        },
        Some(w) => {
            let ghost start = out@;
            let mut rest = line.clone();
            assert(rest@ == line@);
            loop
                invariant_except_break
                    out@ + flat_pieces(prefixed, pre, wrap_line(rest@, w as nat)) == start + flat_pieces(
                        prefixed,
                        pre,
                        wrap_line(line@, w as nat),
                    ),
                invariant
                    prefix@ == pre,
                ensures
                    out@ == start + flat_pieces(prefixed, pre, wrap_line(line@, w as nat)),
                decreases rest@.len(),
            {
                let ghost before = out@;
                if rest.len() <= w {
                    push_decorated(out, prefixed, prefix, &rest);
                    proof {
                        lemma_flat_pieces_cons(prefixed, pre, rest@, Seq::empty());
                        assert(seq![rest@] + Seq::<Seq<char>>::empty() =~= seq![rest@]);
                        assert(out@ =~= start + flat_pieces(prefixed, pre, wrap_line(line@, w as nat)));
                    }
                    break;
                }
                match break_index_exec(&rest, w) {
                    None => {
                        push_decorated(out, prefixed, prefix, &rest);
                        proof {
                            lemma_flat_pieces_cons(prefixed, pre, rest@, Seq::empty());
                            assert(seq![rest@] + Seq::<Seq<char>>::empty() =~= seq![rest@]);
                            assert(out@ =~= start + flat_pieces(prefixed, pre, wrap_line(line@, w as nat)));
                        }
                        break;
                    },
                    Some(k) => {
                        assert(k < rest.len());
                        let head = slice_of(&rest, 0, k);
                        let tail = slice_of(&rest, k + 1, rest.len());
                        push_decorated(out, prefixed, prefix, &head);
                        proof {
                            lemma_flat_pieces_cons(prefixed, pre, head@, wrap_line(tail@, w as nat));
                            assert(before + (decorated(prefixed, pre, head@) + flat_pieces(prefixed, pre, wrap_line(tail@, w as nat)))
                                =~= out@ + flat_pieces(prefixed, pre, wrap_line(tail@, w as nat)));
                        }
                        rest = tail;
                    },
                }
            }
        },
    }
}

/// Appends the commented lines of `text` to `out`.
fn push_body(out: &mut Vec<char>, prefixed: bool, prefix: &Vec<char>, text: &Vec<char>, width: Option<usize>)
    ensures
        final(out)@ == old(out)@ + comment_body(prefixed, prefix@, text@, nat_width(width)),
{
    let ghost wd = nat_width(width);
    let ghost start = out@;
    let mut rest = text.clone();
    assert(rest@ == text@);
    loop
        invariant_except_break
            out@ + flat_lines(prefixed, prefix@, split_lines(rest@), wd) == start + flat_lines(
                prefixed,
                prefix@,
                split_lines(text@),
                wd,
            ),
        invariant
            wd == nat_width(width),
        ensures
            out@ == start + flat_lines(prefixed, prefix@, split_lines(text@), wd),
        decreases rest@.len(),
    {
        let ghost before = out@;
        proof {
            lemma_first_char_bounds(rest@, '\n', 0);
        }
        match first_char_from_exec(&rest, '\n', 0) {
            None => {
                push_line(out, prefixed, prefix, &rest, width);
                proof {
                    lemma_flat_lines_cons(prefixed, prefix@, rest@, Seq::empty(), wd);
                    assert(seq![rest@] + Seq::<Seq<char>>::empty() =~= seq![rest@]);
                    assert(out@ =~= start + flat_lines(prefixed, prefix@, split_lines(text@), wd));
                }
                break;
            },
            Some(k) => {
                assert(k < rest.len());
                let head = slice_of(&rest, 0, k);
                let tail = slice_of(&rest, k + 1, rest.len());
                push_line(out, prefixed, prefix, &head, width);
                proof {
                    lemma_flat_lines_cons(prefixed, prefix@, head@, split_lines(tail@), wd);
                    assert(before + (flat_pieces(prefixed, prefix@, pieces(head@, wd)) + flat_lines(prefixed, prefix@, split_lines(tail@), wd))
                        =~= out@ + flat_lines(prefixed, prefix@, split_lines(tail@), wd));
                }
                rest = tail;
            },
        }
    }
}

fn push_newlines(out: &mut Vec<char>, n: usize)
    ensures
        final(out)@ == old(out)@ + newlines(n as nat),
{
    let mut i: usize = 0;
    while i < n
        invariant
            i <= n,
            out@ == old(out)@ + newlines(i as nat),
        decreases n - i,
    {
        out.push('\n');
        assert(out@ =~= old(out)@ + newlines((i + 1) as nat));
        i = i + 1;
    }
}

/// A way of turning plain text into a comment of some language.
pub trait Comment {
    /// The comment made of `text` when lines are wrapped to `columns`.
    spec fn commented(&self, text: Seq<char>, columns: Option<usize>) -> Seq<char>;

    /// Comments `text`, wrapping lines to `columns` when given.
    fn comment(&self, text: &str, columns: Option<usize>) -> (r: String)
        ensures
            r@ == self.commented(text@, columns),
    ;
}

/// A comment made of lines that each start with the same marker (`#`, `//`).
pub struct LineComment {
    pub character: String,
    pub trailing_lines: usize,
}

impl LineComment {
    /// Line comments marked by `character`, with no blank lines after.
    pub fn new(character: &str) -> (r: LineComment)
        ensures
            r.character@ == character@,
            r.trailing_lines == 0,
    {
        LineComment { character: character.to_string(), trailing_lines: 0 }
    }

    /// The same style, followed by `num_lines` blank lines.
    pub fn set_trailing_lines(self, num_lines: usize) -> (r: LineComment)
        ensures
            r.character == self.character,
            r.trailing_lines == num_lines,
    {
        LineComment { character: self.character, trailing_lines: num_lines }
    }
}

/// The room for text after a prefix of `prefix_len` characters.
fn exec_text_width(columns: Option<usize>, prefix_len: usize) -> (r: Option<usize>)
    ensures
        nat_width(r) == text_width(columns, prefix_len as nat),
{
    match columns {
        Some(c) => {
            if prefix_len < c && c - prefix_len > 1 {
                Some(c - prefix_len - 1)
            } else {
                Some(1)
            }
        },
        None => None,
    }
}

impl Comment for LineComment {
    /// Each line of the text, wrapped to what the marker leaves of
    /// `columns`, as the marker, a space and the line (the marker alone for
    /// an empty line), then the trailing blank lines.
    open spec fn commented(&self, text: Seq<char>, columns: Option<usize>) -> Seq<char> {
        comment_body(true, self.character@, text, text_width(columns, self.character@.len()))
            + newlines(self.trailing_lines as nat)
    }

    fn comment(&self, text: &str, columns: Option<usize>) -> (r: String) {
        let prefix = chars_of(self.character.as_str());
        let width = exec_text_width(columns, prefix.len());
        let mut out: Vec<char> = Vec::new();
        push_body(&mut out, true, &prefix, &chars_of(text), width);
        push_newlines(&mut out, self.trailing_lines);
        assert(out@ =~= self.commented(text@, columns));
        string_of(&out)
    }
}

/// A comment between an opening and a closing delimiter (`/*`, `*/`), with
/// an optional marker at the start of each inner line (` *`).
pub struct BlockComment {
    pub start: String,
    pub end: String,
    pub per_line: Option<String>,
    pub trailing_lines: usize,
}

impl BlockComment {
    /// A block comment between `start` and `end`, with no per-line marker
    /// and no blank lines after.
    pub fn new(start: &str, end: &str) -> (r: BlockComment)
        ensures
            r.start@ == start@,
            r.end@ == end@,
            r.per_line is None,
            r.trailing_lines == 0,
    {
        BlockComment { start: start.to_string(), end: end.to_string(), per_line: None, trailing_lines: 0 }
    }

    /// The same style with `per_line` at the start of each inner line.
    pub fn with_per_line(self, per_line: &str) -> (r: BlockComment)
        ensures
            r.start == self.start,
            r.end == self.end,
            r.per_line matches Some(p) && p@ == per_line@,
            r.trailing_lines == self.trailing_lines,
    {
        BlockComment { start: self.start, end: self.end, per_line: Some(per_line.to_string()), trailing_lines: self.trailing_lines }
    }

    /// The same style, followed by `num_lines` blank lines.
    pub fn set_trailing_lines(self, num_lines: usize) -> (r: BlockComment)
        ensures
            r.start == self.start,
            r.end == self.end,
            r.per_line == self.per_line,
            r.trailing_lines == num_lines,
    {
        BlockComment { start: self.start, end: self.end, per_line: self.per_line, trailing_lines: num_lines }
    }
}

impl Comment for BlockComment {
    /// The opening delimiter on a line of its own, the lines of the text
    /// (wrapped, and marked when a per-line marker is set), the closing
    /// delimiter on a line of its own, then the trailing blank lines.
    open spec fn commented(&self, text: Seq<char>, columns: Option<usize>) -> Seq<char> {
        let body = match self.per_line {
            Some(p) => comment_body(true, p@, text, text_width(columns, p@.len())),
            None => comment_body(false, Seq::empty(), text, text_width(columns, 0)),
        };
        self.start@ + seq!['\n'] + body + self.end@ + seq!['\n'] + newlines(self.trailing_lines as nat)
    }

    fn comment(&self, text: &str, columns: Option<usize>) -> (r: String) {
        let mut out = chars_of(self.start.as_str());
        out.push('\n');
        let body = chars_of(text);
        match &self.per_line {
            Some(p) => {
                let prefix = chars_of(p.as_str());
                let width = exec_text_width(columns, prefix.len());
                push_body(&mut out, true, &prefix, &body, width);
            },
            None => {
                let prefix: Vec<char> = Vec::new();
                assert(prefix@ =~= Seq::<char>::empty());
                let width = exec_text_width(columns, 0);
                push_body(&mut out, false, &prefix, &body, width);
            },
        }
        let end = chars_of(self.end.as_str());
        out.extend_from_slice(end.as_slice());
        out.push('\n');
        push_newlines(&mut out, self.trailing_lines);
        assert(out@ =~= self.commented(text@, columns));
        string_of(&out)
    }
}

} // verus!
