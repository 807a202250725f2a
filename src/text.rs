//! Character classes and the scanning primitives that the rewrite rules are
//! built from. Each scan has a spec function that says where it stops and an
//! executable counterpart proved to stop there.
use vstd::prelude::*;

verus! {

/// Horizontal whitespace: the `White_Space` characters other than the line feed.
pub open spec fn is_space(c: char) -> bool {
    c == '\t' || c == '\x0B' || c == '\x0C' || c == '\r' || c == ' ' || c == '\u{85}'
        || c == '\u{A0}' || c == '\u{1680}' || ('\u{2000}' <= c && c <= '\u{200A}')
        || c == '\u{2028}' || c == '\u{2029}' || c == '\u{202F}' || c == '\u{205F}'
        || c == '\u{3000}'
}

/// Any `White_Space` character, line feed included.
pub open spec fn is_white(c: char) -> bool {
    is_space(c) || c == '\n'
}

/// A character allowed in a code fence's language tag.
pub open spec fn is_word(c: char) -> bool {
    ('a' <= c && c <= 'z') || ('A' <= c && c <= 'Z') || ('0' <= c && c <= '9') || c == '_'
}

/// Position `i` of `s` exists and holds `c`.
pub open spec fn at(s: Seq<char>, i: int, c: char) -> bool {
    0 <= i < s.len() && s[i] == c
}

/// Position `i` of `s` exists and holds horizontal whitespace.
pub open spec fn at_space(s: Seq<char>, i: int) -> bool {
    0 <= i < s.len() && is_space(s[i])
}

/// The first position at or after `i` that holds `stop` or a line feed, or the
/// end of `s` if there is none.
pub open spec fn find_in_line(s: Seq<char>, i: int, stop: char) -> int
    decreases s.len() - i,
{
    if i < 0 || i >= s.len() {
        i
    } else if s[i] == stop || s[i] == '\n' {
        i
    } else {
        find_in_line(s, i + 1, stop)
    }
}

/// The end of the run of horizontal whitespace that starts at `i`.
pub open spec fn skip_space(s: Seq<char>, i: int) -> int
    decreases s.len() - i,
{
    if at_space(s, i) {
        skip_space(s, i + 1)
    } else {
        i
    }
}

/// The end of the run of non-whitespace characters that starts at `i`.
pub open spec fn skip_nonspace(s: Seq<char>, i: int) -> int
    decreases s.len() - i,
{
    if 0 <= i < s.len() && !is_white(s[i]) {
        skip_nonspace(s, i + 1)
    } else {
        i
    }
}

/// The end of the run of word characters that starts at `i`.
pub open spec fn skip_word(s: Seq<char>, i: int) -> int
    decreases s.len() - i,
{
    if 0 <= i < s.len() && is_word(s[i]) {
        skip_word(s, i + 1)
    } else {
        i
    }
}

/// The end of the run of copies of `c` that starts at `i`.
pub open spec fn skip_char(s: Seq<char>, i: int, c: char) -> int
    decreases s.len() - i,
{
    if at(s, i, c) {
        skip_char(s, i + 1, c)
    } else {
        i
    }
}

/// Three backticks start at position `i`.
pub open spec fn fence_at(s: Seq<char>, i: int) -> bool {
    at(s, i, '`') && at(s, i + 1, '`') && at(s, i + 2, '`')
}

/// The first position at or after `i` where a fence starts, or the end of `s`.
pub open spec fn find_fence(s: Seq<char>, i: int) -> int
    decreases s.len() - i,
{
    if i < 0 || i >= s.len() {
        i
    } else if fence_at(s, i) {
        i
    } else {
        find_fence(s, i + 1)
    }
}

/// The end of `s[lo..hi]` once trailing whitespace (line feeds included) is cut.
pub open spec fn trim_end(s: Seq<char>, lo: int, hi: int) -> int
    decreases hi - lo,
{
    if hi <= lo {
        hi
    } else if is_white(s[hi - 1]) {
        trim_end(s, lo, hi - 1)
    } else {
        hi
    }
}

pub proof fn lemma_find_in_line(s: Seq<char>, i: int, stop: char)
    requires
        0 <= i <= s.len(),
    ensures
        i <= find_in_line(s, i, stop) <= s.len(),
        forall|j: int| i <= j < find_in_line(s, i, stop) ==> s[j] != stop && s[j] != '\n',
        find_in_line(s, i, stop) < s.len() ==> (s[find_in_line(s, i, stop)] == stop || s[find_in_line(
            s,
            i,
            stop,
        )] == '\n'),
    decreases s.len() - i,
{
    if i < s.len() && s[i] != stop && s[i] != '\n' {
        lemma_find_in_line(s, i + 1, stop);
    }
}

/// A run of whitespace that ends before a non-space ends where the scan stops.
pub proof fn lemma_skip_space_run(s: Seq<char>, i: int, j: int)
    requires
        0 <= i <= j <= s.len(),
        forall|k: int| i <= k < j ==> is_space(#[trigger] s[k]),
        !at_space(s, j),
    ensures
        skip_space(s, i) == j,
    decreases j - i,
{
    if i < j {
        lemma_skip_space_run(s, i + 1, j);
    }
}

/// A run of `c` that ends before another character ends where the scan stops.
pub proof fn lemma_skip_char_run(s: Seq<char>, i: int, j: int, c: char)
    requires
        0 <= i <= j <= s.len(),
        forall|k: int| i <= k < j ==> #[trigger] s[k] == c,
        !at(s, j, c),
    ensures
        skip_char(s, i, c) == j,
    decreases j - i,
{
    if i < j {
        lemma_skip_char_run(s, i + 1, j, c);
    }
}

/// With neither `stop` nor a line feed after `i`, the search runs to the end.
pub proof fn lemma_find_in_line_none(s: Seq<char>, i: int, stop: char)
    requires
        0 <= i <= s.len(),
        forall|k: int| i <= k < s.len() ==> #[trigger] s[k] != stop && s[k] != '\n',
    ensures
        find_in_line(s, i, stop) == s.len(),
    decreases s.len() - i,
{
    if i < s.len() {
        lemma_find_in_line_none(s, i + 1, stop);
    }
}

pub proof fn lemma_find_fence(s: Seq<char>, i: int)
    requires
        0 <= i <= s.len(),
    ensures
        i <= find_fence(s, i) <= s.len(),
        find_fence(s, i) < s.len() ==> fence_at(s, find_fence(s, i)),
    decreases s.len() - i,
{
    if i < s.len() && !fence_at(s, i) {
        lemma_find_fence(s, i + 1);
    }
}

pub proof fn lemma_trim_end(s: Seq<char>, lo: int, hi: int)
    requires
        0 <= lo <= hi <= s.len(),
    ensures
        lo <= trim_end(s, lo, hi) <= hi,
    decreases hi - lo,
{
    if lo < hi && is_white(s[hi - 1]) {
        lemma_trim_end(s, lo, hi - 1);
    }
}

/// A run of word characters that ends before another character ends where
/// the scan stops.
pub proof fn lemma_skip_word_run(s: Seq<char>, i: int, j: int)
    requires
        0 <= i <= j <= s.len(),
        forall|k: int| i <= k < j ==> is_word(#[trigger] s[k]),
        !(j < s.len() && is_word(s[j])),
    ensures
        skip_word(s, i) == j,
    decreases j - i,
{
    if i < j {
        lemma_skip_word_run(s, i + 1, j);
    }
}

/// With no backtick in `s[i..j]` and a fence at `j`, the search stops at `j`.
pub proof fn lemma_find_fence_at(s: Seq<char>, i: int, j: int)
    requires
        0 <= i <= j,
        fence_at(s, j),
        forall|k: int| i <= k < j ==> #[trigger] s[k] != '`',
    ensures
        find_fence(s, i) == j,
    decreases j - i,
{
    if i < j {
        lemma_find_fence_at(s, i + 1, j);
    }
}

/// Trimming a copy of `b` that sits at `off` in `s` trims `b`.
pub proof fn lemma_trim_end_shift(s: Seq<char>, b: Seq<char>, off: int, lo: int, hi: int)
    requires
        0 <= off,
        off + b.len() <= s.len(),
        s.subrange(off, off + b.len()) == b,
        0 <= lo <= hi <= b.len(),
    ensures
        trim_end(s, off + lo, off + hi) == off + trim_end(b, lo, hi),
    decreases hi - lo,
{
    if lo < hi {
        assert(s[off + hi - 1] == s.subrange(off, off + b.len())[hi - 1]);
        lemma_trim_end_shift(s, b, off, lo, hi - 1);
    }
}

pub fn is_space_char(c: char) -> (r: bool)
    ensures
        r == is_space(c),
{
    c == '\t' || c == '\x0B' || c == '\x0C' || c == '\r' || c == ' ' || c == '\u{85}'
        || c == '\u{A0}' || c == '\u{1680}' || ('\u{2000}' <= c && c <= '\u{200A}')
        || c == '\u{2028}' || c == '\u{2029}' || c == '\u{202F}' || c == '\u{205F}'
        || c == '\u{3000}'
}

fn is_word_char(c: char) -> (r: bool)
    ensures
        r == is_word(c),
{
    ('a' <= c && c <= 'z') || ('A' <= c && c <= 'Z') || ('0' <= c && c <= '9') || c == '_'
}

pub fn char_at(s: &Vec<char>, i: usize, c: char) -> (r: bool)
    ensures
        r == at(s@, i as int, c),
{
    i < s.len() && s[i] == c
}

pub fn space_at(s: &Vec<char>, i: usize) -> (r: bool)
    ensures
        r == at_space(s@, i as int),
{
    i < s.len() && is_space_char(s[i])
}

pub fn find_in_line_exec(s: &Vec<char>, i: usize, stop: char) -> (r: usize)
    requires
        i <= s.len(),
    ensures
        r as int == find_in_line(s@, i as int, stop),
        i <= r <= s.len(),
{
    let mut j: usize = i;
    while j < s.len() && s[j] != stop && s[j] != '\n'
        invariant
            i <= j <= s.len(),
            find_in_line(s@, i as int, stop) == find_in_line(s@, j as int, stop),
        decreases s.len() - j,
    {
        j = j + 1;
    }
    j
}

pub fn skip_space_exec(s: &Vec<char>, i: usize) -> (r: usize)
    requires
        i <= s.len(),
    ensures
        r as int == skip_space(s@, i as int),
        i <= r <= s.len(),
{
    let mut j: usize = i;
    while space_at(s, j)
        invariant
            i <= j <= s.len(),
            skip_space(s@, i as int) == skip_space(s@, j as int),
        decreases s.len() - j,
    {
        j = j + 1;
    }
    j
}

pub fn skip_nonspace_exec(s: &Vec<char>, i: usize) -> (r: usize)
    requires
        i <= s.len(),
    ensures
        r as int == skip_nonspace(s@, i as int),
        i <= r <= s.len(),
{
    let mut j: usize = i;
    while j < s.len() && !is_space_char(s[j]) && s[j] != '\n'
        invariant
            i <= j <= s.len(),
            skip_nonspace(s@, i as int) == skip_nonspace(s@, j as int),
        decreases s.len() - j,
    {
        j = j + 1;
    }
    j
}

pub fn skip_word_exec(s: &Vec<char>, i: usize) -> (r: usize)
    requires
        i <= s.len(),
    ensures
        r as int == skip_word(s@, i as int),
        i <= r <= s.len(),
{
    let mut j: usize = i;
    while j < s.len() && is_word_char(s[j])
        invariant
            i <= j <= s.len(),
            skip_word(s@, i as int) == skip_word(s@, j as int),
        decreases s.len() - j,
    {
        j = j + 1;
    }
    j
}

pub fn skip_char_exec(s: &Vec<char>, i: usize, c: char) -> (r: usize)
    requires
        i <= s.len(),
    ensures
        r as int == skip_char(s@, i as int, c),
        i <= r <= s.len(),
{
    let mut j: usize = i;
    while char_at(s, j, c)
        invariant
            i <= j <= s.len(),
            skip_char(s@, i as int, c) == skip_char(s@, j as int, c),
        decreases s.len() - j,
    {
        j = j + 1;
    }
    j
}

pub fn fence_at_exec(s: &Vec<char>, i: usize) -> (r: bool)
    requires
        i <= s.len(),
    ensures
        r == fence_at(s@, i as int),
{
    i < s.len() && s.len() - i > 2 && s[i] == '`' && s[i + 1] == '`' && s[i + 2] == '`'
}

pub fn find_fence_exec(s: &Vec<char>, i: usize) -> (r: usize)
    requires
        i <= s.len(),
    ensures
        r as int == find_fence(s@, i as int),
        i <= r <= s.len(),
{
    let mut j: usize = i;
    while j < s.len() && !fence_at_exec(s, j)
        invariant
            i <= j <= s.len(),
            find_fence(s@, i as int) == find_fence(s@, j as int),
        decreases s.len() - j,
    {
        j = j + 1;
    }
    j
}

pub fn trim_end_exec(s: &Vec<char>, lo: usize, hi: usize) -> (r: usize)
    requires
        lo <= hi <= s.len(),
    ensures
        r as int == trim_end(s@, lo as int, hi as int),
        lo <= r <= hi,
{
    let mut k: usize = hi;
    while k > lo && (is_space_char(s[k - 1]) || s[k - 1] == '\n')
        invariant
            lo <= k <= hi <= s.len(),
            trim_end(s@, lo as int, hi as int) == trim_end(s@, lo as int, k as int),
        decreases k,
    {
        k = k - 1;
    }
    k
}

/// Appends `s[lo..hi]` to `out`.
pub fn push_range(out: &mut Vec<char>, s: &Vec<char>, lo: usize, hi: usize)
    requires
        lo <= hi <= s.len(),
    ensures
        final(out)@ == old(out)@ + s@.subrange(lo as int, hi as int),
{
    let mut k: usize = lo;
    while k < hi
        invariant
            lo <= k <= hi <= s.len(),
            out@ == old(out)@ + s@.subrange(lo as int, k as int),
        decreases hi - k,
    {
        out.push(s[k]);
        k = k + 1;
        assert(out@ =~= old(out)@ + s@.subrange(lo as int, k as int));
    }
}

/// Appends every character of `t` to `out`.
pub fn push_all(out: &mut Vec<char>, t: &Vec<char>)
    ensures
        final(out)@ == old(out)@ + t@,
{
    push_range(out, t, 0, t.len());
    assert(t@.subrange(0, t@.len() as int) =~= t@);
}

} // verus!
