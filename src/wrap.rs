use vstd::prelude::*;

verus! {

/// The greatest index at most `k` that holds a space, or -1.
pub open spec fn last_space_upto(s: Seq<char>, k: int) -> int
    decreases k + 1,
{
    if k < 0 || k >= s.len() {
        -1
    } else if s[k] == ' ' {
        k
    } else {
        last_space_upto(s, k - 1)
    }
}

/// The least index at least `k` that holds `c`, or -1.
pub open spec fn first_char_from(s: Seq<char>, c: char, k: int) -> int
    decreases s.len() - k,
{
    if k < 0 || k >= s.len() {
        -1
    } else if s[k] == c {
        k
    } else {
        first_char_from(s, c, k + 1)
    }
}

/// Where a line longer than `w` is broken: the last space that keeps the
/// first piece within `w` characters, else the first space after that
/// (an overlong word stays whole), or -1 where the line has no space.
pub open spec fn break_index(s: Seq<char>, w: nat) -> int {
    let b = last_space_upto(s, w as int);
    if b >= 0 {
        b
    } else {
        first_char_from(s, ' ', w as int + 1)
    }
}

/// Greedy word wrap of one line to pieces of at most `w` characters where
/// the words allow it; the space at each break is dropped.
pub open spec fn wrap_line(s: Seq<char>, w: nat) -> Seq<Seq<char>>
    decreases s.len(),
{
    if s.len() <= w {
        seq![s]
    } else {
        let k = break_index(s, w);
        if 0 <= k < s.len() {
            seq![s.subrange(0, k)] + wrap_line(s.subrange(k + 1, s.len() as int), w)
        } else {
            seq![s]
        }
    }
}

proof fn lemma_last_space_bounds(s: Seq<char>, k: int)
    ensures
        last_space_upto(s, k) == -1 || (0 <= last_space_upto(s, k) <= k && last_space_upto(s, k) < s.len()),
    decreases k + 1,
{
    if !(k < 0 || k >= s.len()) && s[k] != ' ' {
        lemma_last_space_bounds(s, k - 1);
    }
}

pub proof fn lemma_first_char_bounds(s: Seq<char>, c: char, k: int)
    ensures
        first_char_from(s, c, k) == -1 || (k <= first_char_from(s, c, k) < s.len()),
    decreases s.len() - k,
{
    if !(k < 0 || k >= s.len()) && s[k] != c {
        lemma_first_char_bounds(s, c, k + 1);
    }
}

fn last_space_upto_exec(s: &Vec<char>, k: usize) -> (r: Option<usize>)
    requires
        k < s@.len(),
    ensures
        match r {
            Some(i) => i as int == last_space_upto(s@, k as int),
            None => last_space_upto(s@, k as int) == -1,
        },
{
    let mut i: usize = k;
    loop
        invariant
            i <= k < s@.len(),
            last_space_upto(s@, i as int) == last_space_upto(s@, k as int),
        decreases i,
    {
        if s[i] == ' ' {
            return Some(i);
        }
        if i == 0 {
            assert(last_space_upto(s@, -1) == -1);
            return None;
        }
        i = i - 1;
    }
}

/// The first index at least `k` that holds `c`.
pub fn first_char_from_exec(s: &Vec<char>, c: char, k: usize) -> (r: Option<usize>)
    ensures
        match r {
            Some(i) => i as int == first_char_from(s@, c, k as int) && i < s@.len(),
            None => first_char_from(s@, c, k as int) == -1,
        },
{
    let mut i: usize = k;
    while i < s.len()
        invariant
            k <= i,
            first_char_from(s@, c, i as int) == first_char_from(s@, c, k as int),
        decreases s@.len() - i,
    {
        if s[i] == c {
            return Some(i);
        }
        i = i + 1;
    }
    None
}

/// Where `s` is broken for width `w`, for a line longer than `w`.
pub fn break_index_exec(s: &Vec<char>, w: usize) -> (r: Option<usize>)
    requires
        w < s@.len(),
    ensures
        match r {
            Some(i) => i as int == break_index(s@, w as nat) && i < s@.len(),
            None => break_index(s@, w as nat) == -1,
        },
{
    proof {
        lemma_last_space_bounds(s@, w as int);
        lemma_first_char_bounds(s@, ' ', w as int + 1);
    }
    assert(w < s.len());
    match last_space_upto_exec(s, w) {
        Some(i) => Some(i),
        None => first_char_from_exec(s, ' ', w + 1),
    }
}

/// The characters of `s` from `from` to `to`.
pub fn slice_of(s: &Vec<char>, from: usize, to: usize) -> (r: Vec<char>)
    requires
        from <= to <= s@.len(),
    ensures
        r@ == s@.subrange(from as int, to as int),
{
    let mut r: Vec<char> = Vec::new();
    let mut i: usize = from;
    while i < to
        invariant
            from <= i <= to <= s@.len(),
            r@ == s@.subrange(from as int, i as int),
        decreases to - i,
    {
        r.push(s[i]);
        i = i + 1;
    }
    r
}

} // verus!
