use md2norg::convert_markdown_to_neorg;

#[test]
fn test_convert_headings() {
    let markdown = "# Heading 1\n## Heading 2\n### Heading 3";
    let expected = "* Heading 1\n** Heading 2\n*** Heading 3\n";
    assert_eq!(convert_markdown_to_neorg(markdown), expected);
}

#[test]
fn test_convert_code_blocks() {
    let markdown = "```rust\nfn main() {\n    println!(\"Hello, world!\");\n}\n```";
    let expected = "@code rust\nfn main() {\n    println!(\"Hello, world!\");\n}\n@end\n";
    assert_eq!(convert_markdown_to_neorg(markdown), expected);
}

#[test]
fn test_convert_lists() {
    let markdown = "- Item 1\n- Item 2\n  - Subitem 2.1\n- Item 3";
    let expected = "-- Item 1\n-- Item 2\n  -- Subitem 2.1\n-- Item 3\n";
    assert_eq!(convert_markdown_to_neorg(markdown), expected);
}

#[test]
fn test_convert_todos() {
    let markdown = "- [ ] Todo item\n- [x] Completed item";
    let expected = "-- ( ) Todo item\n-- (x) Completed item\n";
    assert_eq!(convert_markdown_to_neorg(markdown), expected);
}

#[test]
fn test_convert_mixed_content() {
    let markdown = "# Main Heading\n\n## Subheading\n\n- List item 1\n- [ ] Todo item\n\n```python\nprint(\"Hello, world!\")\n```";
    let expected = "* Main Heading\n\n** Subheading\n\n-- List item 1\n-- ( ) Todo item\n\n@code python\nprint(\"Hello, world!\")\n@end\n";
    assert_eq!(convert_markdown_to_neorg(markdown), expected);
}

#[test]
fn test_preserve_non_converted_content() {
    let markdown = "This is regular text.\n\nIt should be preserved as-is.";
    let expected = "This is regular text.\n\nIt should be preserved as-is.\n";
    assert_eq!(convert_markdown_to_neorg(markdown), expected);
}

#[test]
fn test_convert_obsidian_links() {
    let markdown = "Check out [[My Page]] and [[Another Page With Spaces]]";
    let expected = "Check out {:My Page.norg:} and {:Another Page With Spaces.norg:}\n";
    assert_eq!(convert_markdown_to_neorg(markdown), expected);
}

#[test]
fn test_convert_markdown_links() {
    let input = r#"
[Basic link](https://example.com)
[Reference link][ref]
[Implicit reference link][]
<https://example.com>
![Image](image.jpg)
![Image with title](image.jpg "Title")
![Reference image][img-ref]

[ref]: https://example.com "Reference Title"
[img-ref]: image.jpg "Image Reference Title"
"#;

    let expected_output = r#"
{https://example.com}[Basic link]
{ref}[Reference link]
{}[Implicit reference link]
{https://example.com}[https://example.com]
{image:image.jpg}[Image]
{image:image.jpg}[Image with title]
{image:img-ref}[Reference image]

@ref https://example.com Reference Title
@img-ref image.jpg Image Reference Title
"#;

    let actual = convert_markdown_to_neorg(input);
    assert_eq!(actual, expected_output);
}
