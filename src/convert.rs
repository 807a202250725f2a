//! The whole transformation: links and images, then lines, then code blocks.
use vstd::prelude::*;
use crate::lines::{convert_all_lines, convert_lines};
use crate::rules::{rewrite, rewrite_all, Rule};
use vstd::std_specs::iter::IteratorSpec;

verus! {

/// The link pass: the link and image rules, most specific first, each applied
/// to the whole output of the one before.
pub open spec fn rewrite_links_spec(s: Seq<char>) -> Seq<char> {
    let s1 = rewrite_all(Rule::TitledImage, s);
    let s2 = rewrite_all(Rule::Image, s1);
    let s3 = rewrite_all(Rule::ReferenceImage, s2);
    let s4 = rewrite_all(Rule::Link, s3);
    let s5 = rewrite_all(Rule::ReferenceLink, s4);
    let s6 = rewrite_all(Rule::WikiLink, s5);
    let s7 = rewrite_all(Rule::ReferenceDefinition, s6);
    rewrite_all(Rule::AutoLink, s7)
}

/// The Neorg text for the Markdown text `s`.
pub open spec fn transform(s: Seq<char>) -> Seq<char> {
    rewrite_all(Rule::CodeFence, convert_all_lines(rewrite_links_spec(s)))
}

/// Runs the link pass over `s`.
pub fn rewrite_links(s: &Vec<char>) -> (r: Vec<char>)
    ensures
        r@ == rewrite_links_spec(s@),
{
    let s1 = rewrite(Rule::TitledImage, s);
    let s2 = rewrite(Rule::Image, &s1);
    let s3 = rewrite(Rule::ReferenceImage, &s2);
    let s4 = rewrite(Rule::Link, &s3);
    let s5 = rewrite(Rule::ReferenceLink, &s4);
    let s6 = rewrite(Rule::WikiLink, &s5);
    let s7 = rewrite(Rule::ReferenceDefinition, &s6);
    rewrite(Rule::AutoLink, &s7)
}

/// Converts the characters of a Markdown text to those of its Neorg text.
pub fn transform_chars(s: &Vec<char>) -> (r: Vec<char>)
    ensures
        r@ == transform(s@),
{
    let linked = rewrite_links(s);
    let lined = convert_lines(&linked);
    rewrite(Rule::CodeFence, &lined)
}

fn chars_of(s: &str) -> (r: Vec<char>)
    ensures
        r@ == s@,
{
    broadcast use vstd::string::axiom_spec_iter, vstd::string::next_postcondition;

    let mut it = s.chars();
    let mut v: Vec<char> = Vec::new();
    loop
        invariant
            it.obeys_prophetic_iter_laws(),
            v@ + it.remaining() == s@,
            it.decrease() is Some,
        decreases it.decrease()->0,
    {
        match it.next() {
            Some(c) => {
                v.push(c);
                assert(v@ + it.remaining() =~= s@);
            },
            None => {
                assert(v@ =~= s@);
                return v;
            },
        }
    }
}

/// Relies on `String: FromIterator<char>`: the string holds the characters in order.
#[verifier::external_body]
fn string_of(v: Vec<char>) -> (r: String)
    ensures
        r@ == v@,
{
    String::from_iter(v)
}

/// Converts a Markdown text to Neorg.
pub fn convert_markdown_to_neorg(content: &str) -> (r: String)
    ensures
        r@ == transform(content@),
{
    let s = chars_of(content);
    string_of(transform_chars(&s))
}

} // verus!
