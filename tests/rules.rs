use md2norg::convert_markdown_to_neorg;

#[test]
fn heading_levels_count_hashes() {
    assert_eq!(convert_markdown_to_neorg("##### Deep"), "***** Deep\n");
    assert_eq!(convert_markdown_to_neorg("#\tTabbed"), "* Tabbed\n");
    assert_eq!(convert_markdown_to_neorg("#   Spaced"), "* Spaced\n");
}

#[test]
fn hash_without_space_is_plain() {
    assert_eq!(convert_markdown_to_neorg("#tag"), "#tag\n");
}

#[test]
fn open_task() {
    assert_eq!(convert_markdown_to_neorg("- [ ] X"), "-- ( ) X\n");
}

#[test]
fn done_task() {
    assert_eq!(convert_markdown_to_neorg("- [x] X"), "-- (x) X\n");
}

#[test]
fn upper_case_done_mark_is_a_list_item() {
    assert_eq!(convert_markdown_to_neorg("- [X] X"), "-- [X] X\n");
}

#[test]
fn indented_task_keeps_indent() {
    assert_eq!(convert_markdown_to_neorg("\t  - [x] done"), "\t  -- (x) done\n");
}

#[test]
fn every_list_marker() {
    assert_eq!(convert_markdown_to_neorg("- item"), "-- item\n");
    assert_eq!(convert_markdown_to_neorg("* item"), "-- item\n");
    assert_eq!(convert_markdown_to_neorg("+ item"), "-- item\n");
    assert_eq!(convert_markdown_to_neorg(" \t + item"), " \t -- item\n");
}

#[test]
fn marker_without_space_is_plain() {
    assert_eq!(convert_markdown_to_neorg("-item"), "-item\n");
}

#[test]
fn plain_text_gets_final_line_feed() {
    assert_eq!(convert_markdown_to_neorg("just text"), "just text\n");
    assert_eq!(convert_markdown_to_neorg("just text\n"), "just text\n");
    assert_eq!(convert_markdown_to_neorg(""), "");
    assert_eq!(convert_markdown_to_neorg("a\n\nb"), "a\n\nb\n");
}

#[test]
fn fenced_block_with_language() {
    assert_eq!(convert_markdown_to_neorg("```lang\nbody\n```"), "@code lang\nbody\n@end\n");
}

#[test]
fn fenced_block_drops_trailing_blank_lines() {
    assert_eq!(
        convert_markdown_to_neorg("```lang\n  body\n\n\n```"),
        "@code lang\n  body\n@end\n"
    );
}

#[test]
fn fenced_block_without_language() {
    assert_eq!(convert_markdown_to_neorg("```\nbody\n```"), "@code \nbody\n@end\n");
}

#[test]
fn unclosed_fence_is_kept() {
    assert_eq!(convert_markdown_to_neorg("```rust\nbody"), "```rust\nbody\n");
}

#[test]
fn image_before_link() {
    assert_eq!(convert_markdown_to_neorg("![alt](img.png)"), "{image:img.png}[alt]\n");
}

#[test]
fn titled_image_drops_title() {
    assert_eq!(
        convert_markdown_to_neorg("see ![a b](pic.png \"A title\") here"),
        "see {image:pic.png}[a b] here\n"
    );
}

#[test]
fn reference_image() {
    assert_eq!(convert_markdown_to_neorg("![alt][id]"), "{image:id}[alt]\n");
}

#[test]
fn inline_link() {
    assert_eq!(convert_markdown_to_neorg("go [here](https://x.com) now"), "go {https://x.com}[here] now\n");
}

#[test]
fn reference_link_with_empty_id() {
    assert_eq!(convert_markdown_to_neorg("[text][]"), "{}[text]\n");
}

#[test]
fn reference_definition_with_title() {
    assert_eq!(
        convert_markdown_to_neorg("[ref]: https://x.com \"Title\""),
        "@ref https://x.com Title\n"
    );
}

#[test]
fn reference_definition_without_title() {
    assert_eq!(convert_markdown_to_neorg("[ref]: https://x.com"), "@ref https://x.com \n");
}

#[test]
fn reference_definition_only_at_line_start() {
    assert_eq!(convert_markdown_to_neorg("x [ref]: https://x.com"), "x [ref]: https://x.com\n");
}

#[test]
fn wiki_link_with_space() {
    assert_eq!(convert_markdown_to_neorg("[[My Page]]"), "{:My Page.norg:}\n");
}

#[test]
fn auto_links() {
    assert_eq!(convert_markdown_to_neorg("<http://a.b>"), "{http://a.b}[http://a.b]\n");
    assert_eq!(convert_markdown_to_neorg("<https://a.b/c>"), "{https://a.b/c}[https://a.b/c]\n");
    assert_eq!(convert_markdown_to_neorg("<ftp://a.b>"), "<ftp://a.b>\n");
}

#[test]
fn link_inside_heading_and_list() {
    assert_eq!(convert_markdown_to_neorg("## See [[Notes]]"), "** See {:Notes.norg:}\n");
    assert_eq!(convert_markdown_to_neorg("- [a](b)"), "-- {b}[a]\n");
}

#[test]
fn links_do_not_span_lines() {
    assert_eq!(convert_markdown_to_neorg("[a\nb](c)"), "[a\nb](c)\n");
}

#[test]
fn non_ascii_text_is_kept() {
    assert_eq!(convert_markdown_to_neorg("# Überschrift ✓"), "* Überschrift ✓\n");
    assert_eq!(convert_markdown_to_neorg("#\u{3000}x"), "* x\n");
    assert_eq!(convert_markdown_to_neorg("[[Café]]"), "{:Café.norg:}\n");
}

#[test]
fn title_may_hold_parenthesis() {
    assert_eq!(
        convert_markdown_to_neorg("![a](p.png \"t)t\")"),
        "{image:p.png}[a]\n"
    );
}
