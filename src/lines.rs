//! The line pass: each line is classified on its own (heading, open task,
//! done task, list item or plain text) and rewritten, and each output line
//! ends with a line feed.
use vstd::prelude::*;
use crate::text::{
    at, at_space, char_at, find_in_line, find_in_line_exec, lemma_find_in_line, push_all,
    push_range, skip_char, skip_char_exec, skip_space, skip_space_exec, space_at,
};

verus! {

/// `n` asterisks.
pub open spec fn stars(n: nat) -> Seq<char> {
    Seq::new(n, |_j: int| '*')
}

/// `n` hash signs.
pub open spec fn hashes(n: nat) -> Seq<char> {
    Seq::new(n, |_j: int| '#')
}

/// A list marker.
pub open spec fn is_bullet(c: char) -> bool {
    c == '-' || c == '*' || c == '+'
}

/// A task marker `- [m] ` starts at `k`.
pub open spec fn task_mark_at(l: Seq<char>, k: int, m: char) -> bool {
    at(l, k, '-') && at(l, k + 1, ' ') && at(l, k + 2, '[') && at(l, k + 3, m) && at(l, k + 4, ']')
        && at(l, k + 5, ' ')
}

/// A line is a heading: one or more `#`, then whitespace.
pub open spec fn is_heading(l: Seq<char>) -> bool {
    skip_char(l, 0, '#') > 0 && at_space(l, skip_char(l, 0, '#'))
}

/// A line is a list item: indentation, a marker, then whitespace.
pub open spec fn is_list_item(l: Seq<char>) -> bool {
    let k = skip_space(l, 0);
    0 <= k < l.len() && is_bullet(l[k]) && at_space(l, k + 1)
}

/// The rewrite of one line (without its line feed). The first kind that fits
/// wins: heading, open task, done task, list item; any other line is kept.
pub open spec fn convert_line(l: Seq<char>) -> Seq<char> {
    let h = skip_char(l, 0, '#');
    let k = skip_space(l, 0);
    if is_heading(l) {
        stars(h as nat) + seq![' '] + l.subrange(skip_space(l, h), l.len() as int)
    } else if task_mark_at(l, k, ' ') {
        l.subrange(0, k) + seq!['-', '-', ' ', '(', ' ', ')', ' '] + l.subrange(k + 6, l.len() as int)
    } else if task_mark_at(l, k, 'x') {
        l.subrange(0, k) + seq!['-', '-', ' ', '(', 'x', ')', ' '] + l.subrange(k + 6, l.len() as int)
    } else if is_list_item(l) {
        l.subrange(0, k) + seq!['-', '-', ' '] + l.subrange(skip_space(l, k + 1), l.len() as int)
    } else {
        l
    }
}

/// The lines of `s[i..]`, split at line feeds, each rewritten and ended by a
/// line feed. A final line feed of `s` ends the last line; it starts none.
pub open spec fn lines_from(s: Seq<char>, i: int) -> Seq<char>
    decreases s.len() + 1 - i,
    via lines_from_decreases
{
    if i < 0 || i >= s.len() {
        seq![]
    } else {
        let e = find_in_line(s, i, '\n');
        convert_line(s.subrange(i, e)) + seq!['\n'] + lines_from(s, e + 1)
    }
}

#[via_fn]
proof fn lines_from_decreases(s: Seq<char>, i: int) {
    if 0 <= i < s.len() {
        lemma_find_in_line(s, i, '\n');
    }
}

/// The line pass over a whole text.
pub open spec fn convert_all_lines(s: Seq<char>) -> Seq<char> {
    lines_from(s, 0)
}

fn task_mark_exec(l: &Vec<char>, k: usize, m: char) -> (r: bool)
    requires
        k <= l.len(),
    ensures
        r == task_mark_at(l@, k as int, m),
{
    char_at(l, k, '-') && char_at(l, k + 1, ' ') && char_at(l, k + 2, '[') && char_at(l, k + 3, m)
        && char_at(l, k + 4, ']') && char_at(l, k + 5, ' ')
}

/// Rewrites one line (given without its line feed).
pub fn rewrite_line(l: &Vec<char>) -> (r: Vec<char>)
    ensures
        r@ == convert_line(l@),
{
    let h = skip_char_exec(l, 0, '#');
    let k = skip_space_exec(l, 0);
    let mut v: Vec<char> = Vec::new();
    if h > 0 && space_at(l, h) {
        let mut j: usize = 0;
        while j < h
            invariant
                j <= h,
                v@ == stars(j as nat),
            decreases h - j,
        {
            v.push('*');
            j = j + 1;
            assert(v@ =~= stars(j as nat));
        }
        v.push(' ');
        let t = skip_space_exec(l, h);
        push_range(&mut v, l, t, l.len());
        assert(v@ =~= convert_line(l@));
    } else if task_mark_exec(l, k, ' ') || task_mark_exec(l, k, 'x') {
        let done = !task_mark_exec(l, k, ' ');
        push_range(&mut v, l, 0, k);
        v.push('-');
        v.push('-');
        v.push(' ');
        v.push('(');
        v.push(if done {
            'x'
        } else {
            ' '
        });
        v.push(')');
        v.push(' ');
        push_range(&mut v, l, k + 6, l.len());
        assert(v@ =~= convert_line(l@));
    } else if k < l.len() && (l[k] == '-' || l[k] == '*' || l[k] == '+') && space_at(l, k + 1) {
        push_range(&mut v, l, 0, k);
        v.push('-');
        v.push('-');
        v.push(' ');
        let t = skip_space_exec(l, k + 1);
        push_range(&mut v, l, t, l.len());
        assert(v@ =~= convert_line(l@));
    } else {
        push_all(&mut v, l);
        assert(v@ =~= convert_line(l@));
    }
    v
}

/// Rewrites every line of `s`; each output line ends with a line feed.
pub fn convert_lines(s: &Vec<char>) -> (out: Vec<char>)
    ensures
        out@ == convert_all_lines(s@),
{
    let mut out: Vec<char> = Vec::new();
    let mut i: usize = 0;
    while i < s.len()
        invariant
            i <= s.len(),
            out@ + lines_from(s@, i as int) == convert_all_lines(s@),
        decreases s.len() - i,
    {
        let ghost before = out@;
        let e = find_in_line_exec(s, i, '\n');
        let mut line: Vec<char> = Vec::new();
        push_range(&mut line, s, i, e);
        assert(line@ =~= s@.subrange(i as int, e as int));
        let conv = rewrite_line(&line);
        push_all(&mut out, &conv);
        out.push('\n');
        assert(before + lines_from(s@, i as int) =~= out@ + lines_from(s@, e + 1));
        if e < s.len() {
            i = e + 1;
        } else {
            i = e;
        }
    }
    assert(out@ =~= convert_all_lines(s@));
    out
}

} // verus!
