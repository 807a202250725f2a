//! Properties of the whole transformation, stated over its spec and proved.
use vstd::prelude::*;
use crate::convert::{rewrite_links_spec, transform};
use crate::lines::{convert_all_lines, convert_line, hashes, is_bullet, lines_from, stars};
use crate::rules::{code_block, line_start, match_rule, rewrite_all, rewrite_from, Rule};
use crate::text::{
    at, at_space, fence_at, find_in_line, is_space, is_word, lemma_find_fence_at,
    lemma_find_in_line, lemma_find_in_line_none, lemma_skip_char_run, lemma_skip_space_run,
    lemma_skip_word_run, lemma_trim_end, lemma_trim_end_shift, skip_char, skip_space, skip_word,
    trim_end,
};

verus! {

/// `s` holds none of the characters that open a link, an image, an automatic
/// link or a code fence.
pub open spec fn no_markup(s: Seq<char>) -> bool {
    forall|j: int| 0 <= j < s.len() ==> #[trigger] s[j] != '[' && s[j] != '<' && s[j] != '`'
}

/// `s` holds no line feed.
pub open spec fn single_line(s: Seq<char>) -> bool {
    forall|j: int| 0 <= j < s.len() ==> #[trigger] s[j] != '\n'
}

/// Every character of `s` is horizontal whitespace.
pub open spec fn all_space(s: Seq<char>) -> bool {
    forall|j: int| 0 <= j < s.len() ==> is_space(#[trigger] s[j])
}

/// A line that is neither a heading nor a list item or task: it does not
/// start with `#`, and its first non-blank character is not a list marker.
pub open spec fn plain_line(l: Seq<char>) -> bool {
    let k = skip_space(l, 0);
    !at(l, 0, '#') && !(0 <= k < l.len() && is_bullet(l[k]))
}

/// The line of `s` that starts at `i`, without its line feed.
pub open spec fn line_at(s: Seq<char>, i: int) -> Seq<char> {
    s.subrange(i, find_in_line(s, i, '\n'))
}

/// Every line of `s` is plain.
pub open spec fn all_lines_plain(s: Seq<char>) -> bool {
    forall|i: int| 0 <= i < s.len() && line_start(s, i) ==> plain_line(#[trigger] line_at(s, i))
}

/// `s`, ended by a line feed unless it is empty or already ends with one.
pub open spec fn with_final_newline(s: Seq<char>) -> Seq<char> {
    if s.len() == 0 || s.last() == '\n' {
        s
    } else {
        s.push('\n')
    }
}

/// No rule matches where neither `[`, `<` nor a backtick stands, nor `!`
/// followed by `[`.
proof fn lemma_no_match_at(rule: Rule, s: Seq<char>, j: int)
    requires
        0 <= j < s.len(),
        s[j] != '[' && s[j] != '<' && s[j] != '`',
        !(s[j] == '!' && at(s, j + 1, '[')),
    ensures
        match_rule(rule, s, j) is None,
{
}

proof fn lemma_rewrite_no_match(rule: Rule, s: Seq<char>, i: int)
    requires
        0 <= i <= s.len(),
        forall|j: int| i <= j < s.len() ==> #[trigger] match_rule(rule, s, j) is None,
    ensures
        rewrite_from(rule, s, i) == s.subrange(i, s.len() as int),
    decreases s.len() - i,
{
    if i < s.len() {
        lemma_rewrite_no_match(rule, s, i + 1);
        assert(s.subrange(i, s.len() as int) =~= seq![s[i]] + s.subrange(i + 1, s.len() as int));
    } else {
        assert(s.subrange(i, s.len() as int) =~= seq![]);
    }
}

proof fn lemma_rewrite_unchanged(rule: Rule, s: Seq<char>, i: int)
    requires
        0 <= i <= s.len(),
        no_markup(s),
    ensures
        rewrite_from(rule, s, i) == s.subrange(i, s.len() as int),
{
    assert forall|j: int| i <= j < s.len() implies #[trigger] match_rule(rule, s, j) is None by {
        assert(s[j] != '[' && s[j] != '<' && s[j] != '`');
        if j + 1 < s.len() {
            assert(s[j + 1] != '[');
        }
        lemma_no_match_at(rule, s, j);
    }
    lemma_rewrite_no_match(rule, s, i);
}

proof fn lemma_rewrite_all_unchanged(rule: Rule, s: Seq<char>)
    requires
        no_markup(s),
    ensures
        rewrite_all(rule, s) == s,
{
    lemma_rewrite_unchanged(rule, s, 0);
    assert(s.subrange(0, s.len() as int) =~= s);
}

proof fn lemma_links_unchanged(s: Seq<char>)
    requires
        no_markup(s),
    ensures
        rewrite_links_spec(s) == s,
{
    lemma_rewrite_all_unchanged(Rule::TitledImage, s);
    lemma_rewrite_all_unchanged(Rule::Image, s);
    lemma_rewrite_all_unchanged(Rule::ReferenceImage, s);
    lemma_rewrite_all_unchanged(Rule::Link, s);
    lemma_rewrite_all_unchanged(Rule::ReferenceLink, s);
    lemma_rewrite_all_unchanged(Rule::WikiLink, s);
    lemma_rewrite_all_unchanged(Rule::ReferenceDefinition, s);
    lemma_rewrite_all_unchanged(Rule::AutoLink, s);
}

proof fn lemma_one_line(s: Seq<char>)
    requires
        s.len() > 0,
        single_line(s),
    ensures
        convert_all_lines(s) == convert_line(s) + seq!['\n'],
{
    lemma_find_in_line_none(s, 0, '\n');
    assert(s.subrange(0, s.len() as int) =~= s);
    assert(lines_from(s, s.len() as int + 1) == Seq::<char>::empty());
    assert(convert_line(s) + seq!['\n'] + Seq::<char>::empty() =~= convert_line(s) + seq!['\n']);
}

/// A heading: `n` hash signs (`n` at least one), whitespace, then a text with
/// no markup that does not start with whitespace, becomes `n` asterisks, one
/// space, the text and a line feed.
pub proof fn lemma_heading(n: nat, w: Seq<char>, t: Seq<char>)
    requires
        n >= 1,
        w.len() >= 1,
        all_space(w),
        t.len() == 0 || !is_space(t[0]),
        single_line(t),
        no_markup(t),
    ensures
        transform(hashes(n) + w + t) == stars(n) + seq![' '] + t + seq!['\n'],
{
    let s = hashes(n) + w + t;
    let m = (n + w.len()) as int;
    assert forall|j: int| 0 <= j < s.len() implies s[j] != '[' && s[j] != '<' && s[j] != '`'
        && s[j] != '\n' by {
        if j < n {
        } else if j < m {
            assert(is_space(w[j - n]));
        } else {
            assert(s[j] == t[j - m]);
        }
    }
    lemma_links_unchanged(s);
    lemma_one_line(s);
    assert forall|k: int| 0 <= k < n implies #[trigger] s[k] == '#' by {}
    assert(s[n as int] == w[0]);
    lemma_skip_char_run(s, 0, n as int, '#');
    assert forall|k: int| n <= k < m implies is_space(#[trigger] s[k]) by {
        assert(s[k] == w[k - n]);
    }
    if m < s.len() {
        assert(s[m] == t[0]);
    }
    lemma_skip_space_run(s, n as int, m);
    assert(s.subrange(m, s.len() as int) =~= t);
    let o = stars(n) + seq![' '] + t + seq!['\n'];
    assert(convert_line(s) == stars(n) + seq![' '] + t);
    assert(convert_all_lines(s) =~= o);
    assert forall|j: int| 0 <= j < o.len() implies o[j] != '[' && o[j] != '<' && o[j] != '`' by {
        if j >= n + 1 && j < n + 1 + t.len() {
            assert(o[j] == t[j - n - 1]);
        }
    }
    lemma_rewrite_all_unchanged(Rule::CodeFence, o);
}

/// A list item: indentation, a marker (`-`, `*` or `+`), whitespace, then a
/// text with no markup that does not start with whitespace, becomes the same
/// indentation, `-- `, the text and a line feed.
pub proof fn lemma_list_item(indent: Seq<char>, marker: char, w: Seq<char>, t: Seq<char>)
    requires
        all_space(indent),
        is_bullet(marker),
        w.len() >= 1,
        all_space(w),
        t.len() == 0 || !is_space(t[0]),
        single_line(t),
        no_markup(t),
    ensures
        transform(indent + seq![marker] + w + t) == indent + seq!['-', '-', ' '] + t + seq!['\n'],
{
    let s = indent + seq![marker] + w + t;
    let k = indent.len() as int;
    let m = k + 1 + w.len();
    assert forall|j: int| 0 <= j < s.len() implies s[j] != '[' && s[j] != '<' && s[j] != '`'
        && s[j] != '\n' by {
        if j < k {
            assert(is_space(indent[j]));
        } else if j == k {
        } else if j < m {
            assert(is_space(w[j - k - 1]));
        } else {
            assert(s[j] == t[j - m]);
        }
    }
    lemma_links_unchanged(s);
    lemma_one_line(s);
    if k > 0 {
        assert(is_space(indent[0]));
    }
    assert(!at(s, 0, '#'));
    assert(skip_char(s, 0, '#') == 0);
    assert forall|j: int| 0 <= j < k implies is_space(#[trigger] s[j]) by {
        assert(s[j] == indent[j]);
    }
    assert(s[k] == marker);
    lemma_skip_space_run(s, 0, k);
    assert forall|j: int| k + 1 <= j < m implies is_space(#[trigger] s[j]) by {
        assert(s[j] == w[j - k - 1]);
    }
    if m < s.len() {
        assert(s[m] == t[0]);
    }
    lemma_skip_space_run(s, k + 1, m);
    assert(at_space(s, k + 1));
    assert(s.subrange(0, k) =~= indent);
    assert(s.subrange(m, s.len() as int) =~= t);
    let o = indent + seq!['-', '-', ' '] + t + seq!['\n'];
    assert(convert_line(s) == indent + seq!['-', '-', ' '] + t);
    assert(convert_all_lines(s) =~= o);
    assert forall|j: int| 0 <= j < o.len() implies o[j] != '[' && o[j] != '<' && o[j] != '`' by {
        if j < k {
            assert(is_space(indent[j]));
        } else if j >= k + 3 && j < k + 3 + t.len() {
            assert(o[j] == t[j - k - 3]);
        }
    }
    lemma_rewrite_all_unchanged(Rule::CodeFence, o);
}

proof fn lemma_plain_line_kept(l: Seq<char>)
    requires
        plain_line(l),
    ensures
        convert_line(l) == l,
{
    assert(skip_char(l, 0, '#') == 0);
}

proof fn lemma_lines_plain(s: Seq<char>, i: int)
    requires
        0 <= i <= s.len(),
        line_start(s, i),
        all_lines_plain(s),
    ensures
        lines_from(s, i) == with_final_newline(s.subrange(i, s.len() as int)),
    decreases s.len() - i,
{
    let n = s.len() as int;
    if i == n {
        assert(s.subrange(i, n) =~= Seq::<char>::empty());
    } else {
        let e = find_in_line(s, i, '\n');
        lemma_find_in_line(s, i, '\n');
        assert(plain_line(line_at(s, i)));
        lemma_plain_line_kept(line_at(s, i));
        let line = s.subrange(i, e);
        if e == n {
            assert(lines_from(s, e + 1) == Seq::<char>::empty());
            assert(s.subrange(i, n) =~= line);
            assert(s[n - 1] != '\n');
            assert(lines_from(s, i) =~= line.push('\n'));
        } else {
            lemma_lines_plain(s, e + 1);
            let rest = s.subrange(e + 1, n);
            assert(s.subrange(i, n) =~= line + seq!['\n'] + rest);
            if e + 1 == n {
                assert(rest =~= Seq::<char>::empty());
                assert(lines_from(s, i) =~= line + seq!['\n']);
            } else {
                assert(rest.last() == s[n - 1]);
                assert(s.subrange(i, n).last() == s[n - 1]);
                if s[n - 1] == '\n' {
                    assert(lines_from(s, i) =~= line + seq!['\n'] + rest);
                } else {
                    assert(lines_from(s, i) =~= (line + seq!['\n'] + rest).push('\n'));
                }
            }
        }
    }
}

/// A text with no markup whose lines are all plain comes out unchanged,
/// except that a line feed is added at its end where it lacks one.
pub proof fn lemma_plain_text_kept(s: Seq<char>)
    requires
        no_markup(s),
        all_lines_plain(s),
    ensures
        transform(s) == with_final_newline(s),
{
    lemma_links_unchanged(s);
    lemma_lines_plain(s, 0);
    assert(s.subrange(0, s.len() as int) =~= s);
    let o = with_final_newline(s);
    assert forall|j: int| 0 <= j < o.len() implies o[j] != '[' && o[j] != '<' && o[j] != '`' by {
        if j < s.len() {
            assert(o[j] == s[j]);
        }
    }
    lemma_rewrite_all_unchanged(Rule::CodeFence, o);
}

/// Three backticks.
pub open spec fn fence() -> Seq<char> {
    seq!['`', '`', '`']
}

/// `b` without its trailing whitespace, line feeds included.
pub open spec fn trim_trailing(b: Seq<char>) -> Seq<char> {
    b.subrange(0, trim_end(b, 0, b.len() as int))
}

/// A fenced block, with a language tag of word characters (possibly none) and
/// a body without backticks, becomes an `@code` line with that tag, the body
/// without its trailing whitespace and blank lines, and `@end`.
pub proof fn lemma_fenced_block(lang: Seq<char>, body: Seq<char>)
    requires
        forall|j: int| 0 <= j < lang.len() ==> is_word(#[trigger] lang[j]),
        forall|j: int| 0 <= j < body.len() ==> #[trigger] body[j] != '`',
    ensures
        rewrite_all(Rule::CodeFence, fence() + lang + seq!['\n'] + body + fence()) == code_block(
            lang,
            trim_trailing(body),
        ),
{
    let s = fence() + lang + seq!['\n'] + body + fence();
    let l = 3 + lang.len() as int;
    let c = l + 1 + body.len() as int;
    assert(s.len() == c + 3);
    assert forall|k: int| 3 <= k < l implies is_word(#[trigger] s[k]) by {
        assert(s[k] == lang[k - 3]);
    }
    assert(s[l] == '\n');
    lemma_skip_word_run(s, 3, l);
    assert(skip_word(s, 3) == l);
    assert forall|k: int| l + 1 <= k < c implies #[trigger] s[k] != '`' by {
        assert(s[k] == body[k - l - 1]);
    }
    assert(s[c] == '`' && s[c + 1] == '`' && s[c + 2] == '`');
    assert(fence_at(s, c));
    lemma_find_fence_at(s, l + 1, c);
    assert(fence_at(s, 0));
    assert(s.subrange(l + 1, c) =~= body);
    lemma_trim_end(body, 0, body.len() as int);
    lemma_trim_end_shift(s, body, l + 1, 0, body.len() as int);
    let te = trim_end(body, 0, body.len() as int);
    assert(s.subrange(l + 1, l + 1 + te) =~= body.subrange(0, te));
    assert(s.subrange(3, l) =~= lang);
    assert(rewrite_from(Rule::CodeFence, s, c + 3) == Seq::<char>::empty());
    assert(rewrite_from(Rule::CodeFence, s, 0) =~= code_block(lang, trim_trailing(body)));
}

/// The task marker `- [m] `.
pub open spec fn task_mark(m: char) -> Seq<char> {
    seq!['-', ' ', '[', m, ']', ' ']
}

/// The Neorg task marker `-- (m) `.
pub open spec fn neorg_task_mark(m: char) -> Seq<char> {
    seq!['-', '-', ' ', '(', m, ')', ' ']
}

proof fn lemma_task_links_unchanged(rule: Rule, indent: Seq<char>, m: char, t: Seq<char>)
    requires
        all_space(indent),
        m == ' ' || m == 'x',
        single_line(t),
        no_markup(t),
    ensures
        rewrite_all(rule, indent + task_mark(m) + t) == indent + task_mark(m) + t,
{
    let s = indent + task_mark(m) + t;
    let k = indent.len() as int;
    assert forall|j: int| 0 <= j < s.len() implies #[trigger] match_rule(rule, s, j) is None by {
        if j < k {
            assert(is_space(indent[j]));
            lemma_no_match_at(rule, s, j);
        } else if j == k + 2 {
            assert(find_in_line(s, k + 4, ']') == k + 4);
            assert(find_in_line(s, k + 3, ']') == k + 4);
        } else if j < k + 6 {
            lemma_no_match_at(rule, s, j);
        } else {
            assert(s[j] == t[j - k - 6]);
            if j + 1 < s.len() {
                assert(s[j + 1] == t[j + 1 - k - 6]);
            }
            lemma_no_match_at(rule, s, j);
        }
    }
    lemma_rewrite_no_match(rule, s, 0);
    assert(s.subrange(0, s.len() as int) =~= s);
}

/// A task line: indentation, `- [ ] ` or `- [x] `, then a text with no
/// markup, becomes the same indentation, `-- ( ) ` or `-- (x) `, the text and
/// a line feed.
pub proof fn lemma_task_item(indent: Seq<char>, m: char, t: Seq<char>)
    requires
        all_space(indent),
        m == ' ' || m == 'x',
        single_line(t),
        no_markup(t),
    ensures
        transform(indent + task_mark(m) + t) == indent + neorg_task_mark(m) + t + seq!['\n'],
{
    let s = indent + task_mark(m) + t;
    let k = indent.len() as int;
    lemma_task_links_unchanged(Rule::TitledImage, indent, m, t);
    lemma_task_links_unchanged(Rule::Image, indent, m, t);
    lemma_task_links_unchanged(Rule::ReferenceImage, indent, m, t);
    lemma_task_links_unchanged(Rule::Link, indent, m, t);
    lemma_task_links_unchanged(Rule::ReferenceLink, indent, m, t);
    lemma_task_links_unchanged(Rule::WikiLink, indent, m, t);
    lemma_task_links_unchanged(Rule::ReferenceDefinition, indent, m, t);
    lemma_task_links_unchanged(Rule::AutoLink, indent, m, t);
    assert(rewrite_links_spec(s) == s);
    assert forall|j: int| 0 <= j < s.len() implies #[trigger] s[j] != '\n' by {
        if j < k {
            assert(is_space(indent[j]));
        } else if j >= k + 6 {
            assert(s[j] == t[j - k - 6]);
        }
    }
    lemma_one_line(s);
    if k > 0 {
        assert(is_space(indent[0]));
    }
    assert(!at(s, 0, '#'));
    assert(skip_char(s, 0, '#') == 0);
    assert forall|j: int| 0 <= j < k implies is_space(#[trigger] s[j]) by {
        assert(s[j] == indent[j]);
    }
    assert(s[k] == '-');
    lemma_skip_space_run(s, 0, k);
    assert(s.subrange(0, k) =~= indent);
    assert(s.subrange(k + 6, s.len() as int) =~= t);
    let o = indent + neorg_task_mark(m) + t + seq!['\n'];
    assert(convert_line(s) =~= indent + neorg_task_mark(m) + t);
    assert(convert_all_lines(s) =~= o);
    assert forall|j: int| 0 <= j < o.len() implies o[j] != '[' && o[j] != '<' && o[j] != '`' by {
        if j < k {
            assert(is_space(indent[j]));
        } else if j >= k + 7 && j < k + 7 + t.len() {
            assert(o[j] == t[j - k - 7]);
        }
    }
    lemma_rewrite_all_unchanged(Rule::CodeFence, o);
}

} // verus!
