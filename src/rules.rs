//! The pattern rules: for each, a spec function that says whether it matches at
//! a position of the text, where that match ends and what replaces it, and an
//! executable matcher proved to agree. A rule is applied to a whole text by
//! scanning left to right and replacing each match that does not overlap an
//! earlier one.
use vstd::prelude::*;
use crate::text::{
    at, at_space, char_at, fence_at, fence_at_exec, find_fence, find_fence_exec, find_in_line,
    find_in_line_exec, push_range, skip_nonspace, skip_nonspace_exec, skip_space, skip_space_exec,
    skip_word, skip_word_exec, space_at, trim_end, trim_end_exec,
};

verus! {

/// The rewrite rules, each a pattern with its replacement.
#[derive(Clone, Copy, Debug)]
pub enum Rule {
    /// `![alt](dest "title")` becomes `{image:dest}[alt]`.
    TitledImage,
    /// `![alt](dest)` becomes `{image:dest}[alt]`.
    Image,
    /// `![alt][id]` becomes `{image:id}[alt]`.
    ReferenceImage,
    /// `[text](dest)` becomes `{dest}[text]`.
    Link,
    /// `[text][id]` becomes `{id}[text]`; the id may be empty.
    ReferenceLink,
    /// `[[target]]` becomes `{:target.norg:}`.
    WikiLink,
    /// `[id]: dest "title"` at the start of a line becomes `@id dest title`.
    ReferenceDefinition,
    /// `<http://...>` or `<https://...>` becomes `{url}[url]`.
    AutoLink,
    /// A fenced code block becomes an `@code` ... `@end` block.
    CodeFence,
}

pub open spec fn image_span(dest: Seq<char>, alt: Seq<char>) -> Seq<char> {
    seq!['{', 'i', 'm', 'a', 'g', 'e', ':'] + dest + seq!['}', '['] + alt + seq![']']
}

pub open spec fn link_span(dest: Seq<char>, label: Seq<char>) -> Seq<char> {
    seq!['{'] + dest + seq!['}', '['] + label + seq![']']
}

pub open spec fn wiki_span(target: Seq<char>) -> Seq<char> {
    seq!['{', ':'] + target + seq!['.', 'n', 'o', 'r', 'g', ':', '}']
}

pub open spec fn ref_line(id: Seq<char>, dest: Seq<char>, title: Seq<char>) -> Seq<char> {
    seq!['@'] + id + seq![' '] + dest + seq![' '] + title
}

pub open spec fn code_block(lang: Seq<char>, body: Seq<char>) -> Seq<char> {
    seq!['@', 'c', 'o', 'd', 'e', ' '] + lang + seq!['\n'] + body + seq!['\n', '@', 'e', 'n', 'd']
}

/// A quoted title at `k`: whitespace, `"`, a non-empty title, `"`. Gives the
/// position of the closing quote.
pub open spec fn title_field(s: Seq<char>, k: int) -> Option<int> {
    let w = skip_space(s, k);
    let t = find_in_line(s, w + 1, '"');
    if at_space(s, k) && at(s, w, '"') && t > w + 1 && at(s, t, '"') {
        Some(t)
    } else {
        None
    }
}

/// A quoted title followed by `)` at `k`; gives the end of the match.
pub open spec fn title_tail(s: Seq<char>, k: int) -> Option<int> {
    match title_field(s, k) {
        Some(t) => if at(s, t + 1, ')') {
            Some(t + 2)
        } else {
            None
        },
        None => None,
    }
}

/// The largest `k` with `lo < k <= hi` where a title tail starts: the
/// destination before the title is as long as it can be.
pub open spec fn last_title_split(s: Seq<char>, lo: int, hi: int) -> Option<int>
    decreases hi - lo,
{
    if hi <= lo {
        None
    } else if title_tail(s, hi) is Some {
        Some(hi)
    } else {
        last_title_split(s, lo, hi - 1)
    }
}

pub open spec fn match_titled_image(s: Seq<char>, i: int) -> Option<(int, Seq<char>)> {
    let a = find_in_line(s, i + 2, ']');
    let u = a + 2;
    if at(s, i, '!') && at(s, i + 1, '[') && at(s, a, ']') && at(s, a + 1, '(') {
        match last_title_split(s, u, find_in_line(s, u, ')')) {
            Some(k) => Some(
                (title_tail(s, k)->0, image_span(s.subrange(u, k), s.subrange(i + 2, a))),
            ),
            None => None,
        }
    } else {
        None
    }
}

pub open spec fn match_image(s: Seq<char>, i: int) -> Option<(int, Seq<char>)> {
    let a = find_in_line(s, i + 2, ']');
    let u = find_in_line(s, a + 2, ')');
    if at(s, i, '!') && at(s, i + 1, '[') && at(s, a, ']') && at(s, a + 1, '(') && u > a + 2
        && at(s, u, ')') {
        Some((u + 1, image_span(s.subrange(a + 2, u), s.subrange(i + 2, a))))
    } else {
        None
    }
}

pub open spec fn match_reference_image(s: Seq<char>, i: int) -> Option<(int, Seq<char>)> {
    let a = find_in_line(s, i + 2, ']');
    let r = find_in_line(s, a + 2, ']');
    if at(s, i, '!') && at(s, i + 1, '[') && at(s, a, ']') && at(s, a + 1, '[') && at(s, r, ']') {
        Some((r + 1, image_span(s.subrange(a + 2, r), s.subrange(i + 2, a))))
    } else {
        None
    }
}

pub open spec fn match_link(s: Seq<char>, i: int) -> Option<(int, Seq<char>)> {
    let t = find_in_line(s, i + 1, ']');
    let u = find_in_line(s, t + 2, ')');
    if at(s, i, '[') && t > i + 1 && at(s, t, ']') && at(s, t + 1, '(') && u > t + 2 && at(
        s,
        u,
        ')',
    ) {
        Some((u + 1, link_span(s.subrange(t + 2, u), s.subrange(i + 1, t))))
    } else {
        None
    }
}

pub open spec fn match_reference_link(s: Seq<char>, i: int) -> Option<(int, Seq<char>)> {
    let t = find_in_line(s, i + 1, ']');
    let r = find_in_line(s, t + 2, ']');
    if at(s, i, '[') && t > i + 1 && at(s, t, ']') && at(s, t + 1, '[') && at(s, r, ']') {
        Some((r + 1, link_span(s.subrange(t + 2, r), s.subrange(i + 1, t))))
    } else {
        None
    }
}

pub open spec fn match_wiki_link(s: Seq<char>, i: int) -> Option<(int, Seq<char>)> {
    let t = find_in_line(s, i + 2, ']');
    if at(s, i, '[') && at(s, i + 1, '[') && t > i + 2 && at(s, t, ']') && at(s, t + 1, ']') {
        Some((t + 2, wiki_span(s.subrange(i + 2, t))))
    } else {
        None
    }
}

/// Position `i` is the start of a line.
pub open spec fn line_start(s: Seq<char>, i: int) -> bool {
    i == 0 || at(s, i - 1, '\n')
}

pub open spec fn match_reference_definition(s: Seq<char>, i: int) -> Option<(int, Seq<char>)> {
    let d = find_in_line(s, i + 1, ']');
    let w = skip_space(s, d + 2);
    let e = skip_nonspace(s, w);
    if line_start(s, i) && at(s, i, '[') && d > i + 1 && at(s, d, ']') && at(s, d + 1, ':') && e
        > w {
        let id = s.subrange(i + 1, d);
        let dest = s.subrange(w, e);
        match title_field(s, e) {
            Some(t) => Some((t + 1, ref_line(id, dest, s.subrange(skip_space(s, e) + 1, t)))),
            None => Some((e, ref_line(id, dest, seq![]))),
        }
    } else {
        None
    }
}

pub open spec fn match_auto_link(s: Seq<char>, i: int) -> Option<(int, Seq<char>)> {
    let q = if at(s, i + 5, 's') {
        i + 6
    } else {
        i + 5
    };
    let e = find_in_line(s, q + 3, '>');
    if at(s, i, '<') && at(s, i + 1, 'h') && at(s, i + 2, 't') && at(s, i + 3, 't') && at(
        s,
        i + 4,
        'p',
    ) && at(s, q, ':') && at(s, q + 1, '/') && at(s, q + 2, '/') && e > q + 3 && at(s, e, '>') {
        Some((e + 1, link_span(s.subrange(i + 1, e), s.subrange(i + 1, e))))
    } else {
        None
    }
}

pub open spec fn match_code_fence(s: Seq<char>, i: int) -> Option<(int, Seq<char>)> {
    let l = skip_word(s, i + 3);
    let c = find_fence(s, l + 1);
    if fence_at(s, i) && at(s, l, '\n') && c < s.len() {
        Some((c + 3, code_block(s.subrange(i + 3, l), s.subrange(l + 1, trim_end(s, l + 1, c)))))
    } else {
        None
    }
}

/// Whether `rule` matches at position `i` of `s`: where the match ends and
/// what replaces it.
pub open spec fn match_rule(rule: Rule, s: Seq<char>, i: int) -> Option<(int, Seq<char>)> {
    match rule {
        Rule::TitledImage => match_titled_image(s, i),
        Rule::Image => match_image(s, i),
        Rule::ReferenceImage => match_reference_image(s, i),
        Rule::Link => match_link(s, i),
        Rule::ReferenceLink => match_reference_link(s, i),
        Rule::WikiLink => match_wiki_link(s, i),
        Rule::ReferenceDefinition => match_reference_definition(s, i),
        Rule::AutoLink => match_auto_link(s, i),
        Rule::CodeFence => match_code_fence(s, i),
    }
}

/// `s[i..]` with every match of `rule` replaced, scanning from `i`: a match is
/// sought at each position not covered by an earlier match.
pub open spec fn rewrite_from(rule: Rule, s: Seq<char>, i: int) -> Seq<char>
    decreases s.len() - i,
{
    if i < 0 || i >= s.len() {
        seq![]
    } else {
        match match_rule(rule, s, i) {
            Some((e, rep)) => if i < e <= s.len() {
                rep + rewrite_from(rule, s, e)
            } else {
                seq![s[i]] + rewrite_from(rule, s, i + 1)
            },
            None => seq![s[i]] + rewrite_from(rule, s, i + 1),
        }
    }
}

/// `s` with every match of `rule` replaced.
pub open spec fn rewrite_all(rule: Rule, s: Seq<char>) -> Seq<char> {
    rewrite_from(rule, s, 0)
}

/// An executable match agrees with the spec's.
pub open spec fn agrees(r: Option<(usize, Vec<char>)>, m: Option<(int, Seq<char>)>) -> bool {
    match r {
        Some((e, v)) => m == Some((e as int, v@)),
        None => m is None,
    }
}

fn image_span_exec(s: &Vec<char>, dlo: usize, dhi: usize, alo: usize, ahi: usize) -> (v: Vec<
    char,
>)
    requires
        dlo <= dhi <= s.len(),
        alo <= ahi <= s.len(),
    ensures
        v@ == image_span(s@.subrange(dlo as int, dhi as int), s@.subrange(alo as int, ahi as int)),
{
    let mut v: Vec<char> = Vec::new();
    v.push('{');
    v.push('i');
    v.push('m');
    v.push('a');
    v.push('g');
    v.push('e');
    v.push(':');
    push_range(&mut v, s, dlo, dhi);
    v.push('}');
    v.push('[');
    push_range(&mut v, s, alo, ahi);
    v.push(']');
    assert(v@ =~= image_span(
        s@.subrange(dlo as int, dhi as int),
        s@.subrange(alo as int, ahi as int),
    ));
    v
}

fn link_span_exec(s: &Vec<char>, dlo: usize, dhi: usize, llo: usize, lhi: usize) -> (v: Vec<char>)
    requires
        dlo <= dhi <= s.len(),
        llo <= lhi <= s.len(),
    ensures
        v@ == link_span(s@.subrange(dlo as int, dhi as int), s@.subrange(llo as int, lhi as int)),
{
    let mut v: Vec<char> = Vec::new();
    v.push('{');
    push_range(&mut v, s, dlo, dhi);
    v.push('}');
    v.push('[');
    push_range(&mut v, s, llo, lhi);
    v.push(']');
    assert(v@ =~= link_span(
        s@.subrange(dlo as int, dhi as int),
        s@.subrange(llo as int, lhi as int),
    ));
    v
}

fn title_field_exec(s: &Vec<char>, k: usize) -> (r: Option<usize>)
    requires
        k <= s.len(),
    ensures
        r matches Some(t) ==> title_field(s@, k as int) == Some(t as int) && t < s.len(),
        r is None ==> title_field(s@, k as int) is None,
{
    if !space_at(s, k) {
        return None;
    }
    let w = skip_space_exec(s, k);
    if !char_at(s, w, '"') {
        return None;
    }
    let t = find_in_line_exec(s, w + 1, '"');
    if t > w + 1 && char_at(s, t, '"') {
        Some(t)
    } else {
        None
    }
}

fn title_tail_exec(s: &Vec<char>, k: usize) -> (r: Option<usize>)
    requires
        k <= s.len(),
    ensures
        r matches Some(e) ==> title_tail(s@, k as int) == Some(e as int),
        r is None ==> title_tail(s@, k as int) is None,
{
    match title_field_exec(s, k) {
        Some(t) => if char_at(s, t + 1, ')') {
            Some(t + 2)
        } else {
            None
        },
        None => None,
    }
}

fn match_titled_image_exec(s: &Vec<char>, i: usize) -> (r: Option<(usize, Vec<char>)>)
    requires
        i < s.len(),
    ensures
        agrees(r, match_titled_image(s@, i as int)),
{
    if !(char_at(s, i, '!') && char_at(s, i + 1, '[')) {
        return None;
    }
    let a = find_in_line_exec(s, i + 2, ']');
    if !(char_at(s, a, ']') && char_at(s, a + 1, '(')) {
        return None;
    }
    let u = a + 2;
    let stop = find_in_line_exec(s, u, ')');
    let mut k: usize = stop;
    while k > u
        invariant
            u <= k <= stop <= s.len(),
            i + 2 <= a,
            u == a + 2,
            at(s@, i as int, '!') && at(s@, i + 1, '[') && at(s@, a as int, ']') && at(
                s@,
                a + 1,
                '(',
            ),
            a as int == find_in_line(s@, i + 2, ']'),
            stop as int == find_in_line(s@, u as int, ')'),
            last_title_split(s@, u as int, stop as int) == last_title_split(
                s@,
                u as int,
                k as int,
            ),
        decreases k,
    {
        match title_tail_exec(s, k) {
            Some(e) => {
                let v = image_span_exec(s, u, k, i + 2, a);
                return Some((e, v));
            },
            None => {
                k = k - 1;
            },
        }
    }
    None
}

fn match_image_exec(s: &Vec<char>, i: usize) -> (r: Option<(usize, Vec<char>)>)
    requires
        i < s.len(),
    ensures
        agrees(r, match_image(s@, i as int)),
{
    if !(char_at(s, i, '!') && char_at(s, i + 1, '[')) {
        return None;
    }
    let a = find_in_line_exec(s, i + 2, ']');
    if !(char_at(s, a, ']') && char_at(s, a + 1, '(')) {
        return None;
    }
    let u = find_in_line_exec(s, a + 2, ')');
    if !(u > a + 2 && char_at(s, u, ')')) {
        return None;
    }
    Some((u + 1, image_span_exec(s, a + 2, u, i + 2, a)))
}

fn match_reference_image_exec(s: &Vec<char>, i: usize) -> (r: Option<(usize, Vec<char>)>)
    requires
        i < s.len(),
    ensures
        agrees(r, match_reference_image(s@, i as int)),
{
    if !(char_at(s, i, '!') && char_at(s, i + 1, '[')) {
        return None;
    }
    let a = find_in_line_exec(s, i + 2, ']');
    if !(char_at(s, a, ']') && char_at(s, a + 1, '[')) {
        return None;
    }
    let r = find_in_line_exec(s, a + 2, ']');
    if !char_at(s, r, ']') {
        return None;
    }
    Some((r + 1, image_span_exec(s, a + 2, r, i + 2, a)))
}

fn match_link_exec(s: &Vec<char>, i: usize) -> (r: Option<(usize, Vec<char>)>)
    requires
        i < s.len(),
    ensures
        agrees(r, match_link(s@, i as int)),
{
    if !char_at(s, i, '[') {
        return None;
    }
    let t = find_in_line_exec(s, i + 1, ']');
    if !(t > i + 1 && char_at(s, t, ']') && char_at(s, t + 1, '(')) {
        return None;
    }
    let u = find_in_line_exec(s, t + 2, ')');
    if !(u > t + 2 && char_at(s, u, ')')) {
        return None;
    }
    Some((u + 1, link_span_exec(s, t + 2, u, i + 1, t)))
}

fn match_reference_link_exec(s: &Vec<char>, i: usize) -> (r: Option<(usize, Vec<char>)>)
    requires
        i < s.len(),
    ensures
        agrees(r, match_reference_link(s@, i as int)),
{
    if !char_at(s, i, '[') {
        return None;
    }
    let t = find_in_line_exec(s, i + 1, ']');
    if !(t > i + 1 && char_at(s, t, ']') && char_at(s, t + 1, '[')) {
        return None;
    }
    let r = find_in_line_exec(s, t + 2, ']');
    if !char_at(s, r, ']') {
        return None;
    }
    Some((r + 1, link_span_exec(s, t + 2, r, i + 1, t)))
}

fn match_wiki_link_exec(s: &Vec<char>, i: usize) -> (r: Option<(usize, Vec<char>)>)
    requires
        i < s.len(),
    ensures
        agrees(r, match_wiki_link(s@, i as int)),
{
    if !(char_at(s, i, '[') && char_at(s, i + 1, '[')) {
        return None;
    }
    let t = find_in_line_exec(s, i + 2, ']');
    if !(t > i + 2 && char_at(s, t, ']') && char_at(s, t + 1, ']')) {
        return None;
    }
    let mut v: Vec<char> = Vec::new();
    v.push('{');
    v.push(':');
    push_range(&mut v, s, i + 2, t);
    v.push('.');
    v.push('n');
    v.push('o');
    v.push('r');
    v.push('g');
    v.push(':');
    v.push('}');
    assert(v@ =~= wiki_span(s@.subrange(i + 2, t as int)));
    Some((t + 2, v))
}

fn match_reference_definition_exec(s: &Vec<char>, i: usize) -> (r: Option<(usize, Vec<char>)>)
    requires
        i < s.len(),
    ensures
        agrees(r, match_reference_definition(s@, i as int)),
{
    if !((i == 0 || char_at(s, i - 1, '\n')) && char_at(s, i, '[')) {
        return None;
    }
    let d = find_in_line_exec(s, i + 1, ']');
    if !(d > i + 1 && char_at(s, d, ']') && char_at(s, d + 1, ':')) {
        return None;
    }
    let w = skip_space_exec(s, d + 2);
    let e = skip_nonspace_exec(s, w);
    if !(e > w) {
        return None;
    }
    let mut v: Vec<char> = Vec::new();
    v.push('@');
    push_range(&mut v, s, i + 1, d);
    v.push(' ');
    push_range(&mut v, s, w, e);
    v.push(' ');
    let ghost id = s@.subrange(i + 1, d as int);
    let ghost dest = s@.subrange(w as int, e as int);
    match title_field_exec(s, e) {
        Some(t) => {
            let q = skip_space_exec(s, e);
            proof {
                crate::text::lemma_find_in_line(s@, q + 1, '"');
            }
            push_range(&mut v, s, q + 1, t);
            assert(v@ =~= ref_line(id, dest, s@.subrange(q + 1, t as int)));
            Some((t + 1, v))
        },
        None => {
            assert(v@ =~= ref_line(id, dest, seq![]));
            Some((e, v))
        },
    }
}

fn match_auto_link_exec(s: &Vec<char>, i: usize) -> (r: Option<(usize, Vec<char>)>)
    requires
        i < s.len(),
    ensures
        agrees(r, match_auto_link(s@, i as int)),
{
    if !(char_at(s, i, '<') && char_at(s, i + 1, 'h') && char_at(s, i + 2, 't') && char_at(
        s,
        i + 3,
        't',
    ) && char_at(s, i + 4, 'p')) {
        return None;
    }
    let q = if char_at(s, i + 5, 's') {
        i + 6
    } else {
        i + 5
    };
    if !(char_at(s, q, ':') && char_at(s, q + 1, '/') && char_at(s, q + 2, '/')) {
        return None;
    }
    let e = find_in_line_exec(s, q + 3, '>');
    if !(e > q + 3 && char_at(s, e, '>')) {
        return None;
    }
    Some((e + 1, link_span_exec(s, i + 1, e, i + 1, e)))
}

fn match_code_fence_exec(s: &Vec<char>, i: usize) -> (r: Option<(usize, Vec<char>)>)
    requires
        i < s.len(),
    ensures
        agrees(r, match_code_fence(s@, i as int)),
{
    if !fence_at_exec(s, i) {
        return None;
    }
    let l = skip_word_exec(s, i + 3);
    if !char_at(s, l, '\n') {
        return None;
    }
    let c = find_fence_exec(s, l + 1);
    if c >= s.len() {
        return None;
    }
    proof {
        crate::text::lemma_find_fence(s@, l + 1);
    }
    let b = trim_end_exec(s, l + 1, c);
    let mut v: Vec<char> = Vec::new();
    v.push('@');
    v.push('c');
    v.push('o');
    v.push('d');
    v.push('e');
    v.push(' ');
    push_range(&mut v, s, i + 3, l);
    v.push('\n');
    push_range(&mut v, s, l + 1, b);
    v.push('\n');
    v.push('@');
    v.push('e');
    v.push('n');
    v.push('d');
    assert(v@ =~= code_block(s@.subrange(i + 3, l as int), s@.subrange(l + 1, b as int)));
    Some((c + 3, v))
}

/// Tries `rule` at position `i` of `s`.
pub fn match_rule_exec(rule: Rule, s: &Vec<char>, i: usize) -> (r: Option<(usize, Vec<char>)>)
    requires
        i < s.len(),
    ensures
        agrees(r, match_rule(rule, s@, i as int)),
{
    match rule {
        Rule::TitledImage => match_titled_image_exec(s, i),
        Rule::Image => match_image_exec(s, i),
        Rule::ReferenceImage => match_reference_image_exec(s, i),
        Rule::Link => match_link_exec(s, i),
        Rule::ReferenceLink => match_reference_link_exec(s, i),
        Rule::WikiLink => match_wiki_link_exec(s, i),
        Rule::ReferenceDefinition => match_reference_definition_exec(s, i),
        Rule::AutoLink => match_auto_link_exec(s, i),
        Rule::CodeFence => match_code_fence_exec(s, i),
    }
}

/// Replaces every match of `rule` in `s`, left to right, without overlaps.
pub fn rewrite(rule: Rule, s: &Vec<char>) -> (out: Vec<char>)
    ensures
        out@ == rewrite_all(rule, s@),
{
    let mut out: Vec<char> = Vec::new();
    let mut i: usize = 0;
    while i < s.len()
        invariant
            i <= s.len(),
            out@ + rewrite_from(rule, s@, i as int) == rewrite_all(rule, s@),
        decreases s.len() - i,
    {
        let ghost before = out@;
        let ghost rest = rewrite_from(rule, s@, i as int);
        match match_rule_exec(rule, s, i) {
            Some((e, rep)) => {
                if i < e && e <= s.len() {
                    crate::text::push_all(&mut out, &rep);
                    assert(rest == rep@ + rewrite_from(rule, s@, e as int));
                    assert(before + rest =~= out@ + rewrite_from(rule, s@, e as int));
                    i = e;
                } else {
                    out.push(s[i]);
                    assert(before + rest =~= out@ + rewrite_from(rule, s@, i + 1));
                    i = i + 1;
                }
            },
            None => {
                out.push(s[i]);
                assert(before + rest =~= out@ + rewrite_from(rule, s@, i + 1));
                i = i + 1;
            },
        }
    }
    assert(out@ =~= rewrite_all(rule, s@));
    out
}

} // verus!
