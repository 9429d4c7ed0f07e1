use vstd::prelude::*;

verus! {

/// True when the character at `i` is a line break with no line break on
/// either side: such a break only wraps a paragraph and becomes a space.
pub open spec fn is_wrapping_break(s: Seq<char>, i: int) -> bool {
    &&& s[i] == '\n'
    &&& !(i > 0 && s[i - 1] == '\n')
    &&& !(i + 1 < s.len() && s[i + 1] == '\n')
}

/// Reflowed text: every wrapping break becomes a space, everything else
/// (including runs of two or more line breaks) is kept.
pub open spec fn unwrapped(s: Seq<char>) -> Seq<char> {
    Seq::new(s.len(), |i: int| if is_wrapping_break(s, i) { ' ' } else { s[i] })
}

/// Reflowing twice gives the same text as reflowing once.
pub proof fn lemma_unwrap_idempotent(s: Seq<char>)
    ensures
        unwrapped(unwrapped(s)) == unwrapped(s),
{
    let u = unwrapped(s);
    assert forall|i: int| 0 <= i < u.len() implies !#[trigger] is_wrapping_break(u, i) by {
        if u[i] == '\n' {
            assert(s[i] == '\n' && !is_wrapping_break(s, i));
            if i > 0 && s[i - 1] == '\n' {
                assert(!is_wrapping_break(s, i - 1));
            } else {
                assert(!is_wrapping_break(s, i + 1));
            }
        }
    }
    assert(unwrapped(u) =~= u);
}

/// The characters of a string, in order.
pub fn chars_of(s: &str) -> (r: Vec<char>)
    ensures
        r@ == s@,
{
    let n = s.unicode_len();
    let mut r: Vec<char> = Vec::new();
    let mut i: usize = 0;
    while i < n
        invariant
            n == s@.len(),
            i <= n,
            r@ == s@.subrange(0, i as int),
        decreases n - i,
    {
        r.push(s.get_char(i));
        i = i + 1;
    }
    assert(r@ =~= s@);
    r
}

/// Relies on `FromIterator<char>` for `String`: the string holds the
/// characters in the order given.
#[verifier::external_body]
pub(crate) fn string_of(v: &Vec<char>) -> (r: String)
    ensures
        r@ == v@,
{
    v.iter().collect()
}

/// Reflows pre-wrapped text into one line per paragraph.
pub fn unwrap(text: &str) -> (r: String)
    ensures
        r@ == unwrapped(text@),
{
    let s = chars_of(text);
    let n = s.len();
    let mut out: Vec<char> = Vec::new();
    let mut i: usize = 0;
    while i < n
        invariant
            n == s@.len(),
            s@ == text@,
            i <= n,
            out@ == unwrapped(s@).subrange(0, i as int),
        decreases n - i,
    {
        let c = s[i];
        let joins = c == '\n' && !(i > 0 && s[i - 1] == '\n') && !(i + 1 < n && s[i + 1] == '\n');
        if joins {
            out.push(' ');
        } else {
            out.push(c);
        }
        assert(out@ =~= unwrapped(s@).subrange(0, i + 1));
        i = i + 1;
    }
    assert(out@ =~= unwrapped(s@));
    string_of(&out)
}

/// True when `p` occurs in `s` starting at index `i`.
pub open spec fn occurs_at(s: Seq<char>, p: Seq<char>, i: int) -> bool {
    0 <= i && i + p.len() <= s.len() && s.subrange(i, i + p.len()) == p
}

/// True when `p` occurs somewhere in `s`.
pub open spec fn contains(s: Seq<char>, p: Seq<char>) -> bool {
    exists|i: int| occurs_at(s, p, i)
}

/// `s` with every occurrence of the non-empty `p` replaced by `r`, scanning
/// from the left; occurrences do not overlap.
pub open spec fn replaced(s: Seq<char>, p: Seq<char>, r: Seq<char>) -> Seq<char>
    decreases s.len(),
{
    if s.len() == 0 {
        s
    } else if p.len() > 0 && occurs_at(s, p, 0) {
        r + replaced(s.subrange(p.len() as int, s.len() as int), p, r)
    } else {
        seq![s[0]] + replaced(s.subrange(1, s.len() as int), p, r)
    }
}

/// Whether `p` occurs in `s` at index `i`.
pub fn occurs_at_exec(s: &Vec<char>, p: &Vec<char>, i: usize) -> (r: bool)
    ensures
        r == occurs_at(s@, p@, i as int),
{
    if i > s.len() || p.len() > s.len() - i {
        return false;
    }
    let mut j: usize = 0;
    while j < p.len()
        invariant
            i <= s@.len(),
            i + p@.len() <= s@.len(),
            j <= p@.len(),
            forall|k: int| 0 <= k < j ==> s@[i + k] == p@[k],
        decreases p@.len() - j,
    {
        assert(j < p@.len());
        assert(i + j < s.len());
        if s[i + j] != p[j] {
            assert(s@.subrange(i as int, i + p@.len())[j as int] != p@[j as int]);
            return false;
        }
        j = j + 1;
    }
    assert(s@.subrange(i as int, i + p@.len()) =~= p@);
    true
}

/// Whether `p` occurs anywhere in `s`.
pub fn contains_exec(s: &Vec<char>, p: &Vec<char>) -> (r: bool)
    ensures
        r == contains(s@, p@),
{
    let mut i: usize = 0;
    while i < s.len()
        invariant
            i <= s@.len(),
            forall|k: int| 0 <= k < i ==> !occurs_at(s@, p@, k),
        decreases s@.len() - i,
    {
        if occurs_at_exec(s, p, i) {
            return true;
        }
        i = i + 1;
    }
    if occurs_at_exec(s, p, i) {
        return true;
    }
    assert forall|k: int| !occurs_at(s@, p@, k) by {
        if 0 <= k && k < i {
        }
    }
    false
}

proof fn lemma_replaced_step(s: Seq<char>, p: Seq<char>, r: Seq<char>, i: int)
    requires
        0 <= i < s.len(),
    ensures
        replaced(s.subrange(i, s.len() as int), p, r) == if p.len() > 0 && occurs_at(s, p, i) {
            r + replaced(s.subrange(i + p.len(), s.len() as int), p, r)
        } else {
            seq![s[i]] + replaced(s.subrange(i + 1, s.len() as int), p, r)
        },
{
    let t = s.subrange(i, s.len() as int);
    assert(occurs_at(t, p, 0) == occurs_at(s, p, i)) by {
        if i + p.len() <= s.len() {
            assert(t.subrange(0, p.len() as int) =~= s.subrange(i, i + p.len()));
        }
    }
    if p.len() > 0 && occurs_at(s, p, i) {
        assert(t.subrange(p.len() as int, t.len() as int) =~= s.subrange(i + p.len(), s.len() as int));
    } else {
        assert(t.subrange(1, t.len() as int) =~= s.subrange(i + 1, s.len() as int));
    }
}

/// Replaces every occurrence of the non-empty `p` in `s` by `r`.
pub fn replace_all(s: &Vec<char>, p: &Vec<char>, r: &Vec<char>) -> (out: Vec<char>)
    requires
        p@.len() > 0,
    ensures
        out@ == replaced(s@, p@, r@),
{
    let n = s.len();
    let mut out: Vec<char> = Vec::new();
    let mut i: usize = 0;
    assert(s@.subrange(0, n as int) =~= s@);
    assert(out@ + s@ =~= s@);
    while i < n
        invariant
            n == s@.len(),
            p@.len() > 0,
            i <= n,
            out@ + replaced(s@.subrange(i as int, n as int), p@, r@) == replaced(s@, p@, r@),
        decreases n - i,
    {
        proof {
            lemma_replaced_step(s@, p@, r@, i as int);
        }
        if occurs_at_exec(s, p, i) {
            let ghost before = out@;
            out.extend_from_slice(r.as_slice());
            assert(out@ == before + r@);
            assert(before + (r@ + replaced(s@.subrange(i + p@.len(), n as int), p@, r@)) =~= out@ + replaced(s@.subrange(i + p@.len(), n as int), p@, r@));
            i = i + p.len();
        } else {
            let ghost before = out@;
            out.push(s[i]);
            assert(out@ == before + seq![s@[i as int]]);
            assert(before + (seq![s@[i as int]] + replaced(s@.subrange(i + 1, n as int), p@, r@)) =~= out@ + replaced(s@.subrange(i + 1, n as int), p@, r@));
            i = i + 1;
        }
    }
    assert(s@.subrange(n as int, n as int) =~= Seq::<char>::empty());
    assert(out@ + Seq::<char>::empty() =~= out@);
    out
}

} // verus!
