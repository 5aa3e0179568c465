use md_to_html::classify::{classify_lines, State};
use md_to_html::inline::{parse_headings, parse_line, parse_lists};
use md_to_html::lines::split_lines;
use md_to_html::pipeline::convert_text;
use md_to_html::render::convert_lines;
use md_to_html::wrap::wrap_html;

fn shell(body: &str, title: &str, style: &str) -> String {
    format!(
        "<!DOCTYPE html><head><style>{}</style><title>{}</title></head><body>{}</body>",
        style, title, body
    )
}

#[test]
fn classify_len_matches_line_count() {
    let lines: Vec<String> = vec![
        "# h".to_string(),
        "- a".to_string(),
        "1. b".to_string(),
        "```".to_string(),
        "code".to_string(),
        "```".to_string(),
        "".to_string(),
        "plain".to_string(),
    ];
    let states = classify_lines(&lines);
    assert_eq!(states.len(), lines.len());
}

#[test]
fn classify_states_of_mixed_document() {
    let lines: Vec<String> = vec![
        "- a".to_string(),
        "1. b".to_string(),
        "```".to_string(),
        "- inside".to_string(),
        "```".to_string(),
        "after".to_string(),
    ];
    let states = classify_lines(&lines);
    assert_eq!(
        states,
        vec![
            State::UnorderedList,
            State::OrderedList,
            State::Code,
            State::Code,
            State::Normal,
            State::Normal,
        ]
    );
}

#[test]
fn convert_twice_identical() {
    let input = "# Title\n\n- a\n- b\n\n```\ncode **x**\n```\nend **bold** *em*";
    let a = convert_text(input, "in.md", "body{}", true);
    let b = convert_text(input, "in.md", "body{}", true);
    assert_eq!(a, b);
}

#[test]
fn heading_level_three() {
    assert_eq!(parse_headings("### Title"), "<h3>Title</h3>");
    let out = convert_text("### Title", "t", "s", false);
    assert!(out.contains("<h3>Title</h3>"));
}

#[test]
fn heading_seven_hashes_unchanged() {
    assert_eq!(parse_headings("####### x"), "####### x");
}

#[test]
fn heading_all_levels() {
    assert_eq!(parse_headings("# a"), "<h1>a</h1>");
    assert_eq!(parse_headings("## a"), "<h2>a</h2>");
    assert_eq!(parse_headings("###### a"), "<h6>a</h6>");
    assert_eq!(parse_headings("#nospace"), "#nospace");
}

#[test]
fn heading_trims_carriage_return() {
    assert_eq!(parse_headings("# T\r"), "<h1>T</h1>");
    assert_eq!(parse_headings("plain\r\r"), "plain");
}

#[test]
fn unordered_list_two_items() {
    let out = convert_text("- a\n- b\n\n", "t", "s", false);
    assert_eq!(out, shell("<ul>\n<li>a</li>\n<li>b</li>\n\n</ul>\n", "t", "s"));
}

#[test]
fn ordered_list_then_blank_line() {
    let out = convert_text("1. first\n\nafter", "t", "s", false);
    assert_eq!(
        out,
        shell("<ol>\n<li>first</li>\n\n</ol>\n<p>after</p>", "t", "s")
    );
}

#[test]
fn ordered_marker_variants() {
    assert_eq!(parse_lists("1. a"), "<li>a</li>");
    assert_eq!(parse_lists("12. a"), "<li>a</li>");
    assert_eq!(parse_lists("ab1. a"), "<li>a</li>");
    assert_eq!(parse_lists("- item"), "<li>item</li>");
    // A period with no following space is no marker.
    assert_eq!(parse_lists("1.a"), "1.a");
    // A leading non-alphanumeric character stops the scan.
    assert_eq!(parse_lists("#. x"), "#. x");
    // The period may not come first.
    assert_eq!(parse_lists(". x"), ". x");
}

#[test]
fn code_fence_block() {
    let out = convert_text("```\ncode\n```", "t", "s", false);
    assert_eq!(out, shell("<pre><code>\ncode\n</code></pre>\n", "t", "s"));
}

#[test]
fn code_fence_keeps_markup_literal() {
    let out = convert_text("```\n**not bold**\n```", "t", "s", false);
    assert!(out.contains("**not bold**"));
    assert!(!out.contains("<strong>"));
}

#[test]
fn unterminated_code_fence_degrades() {
    let out = convert_text("```\ncode", "t", "s", false);
    assert_eq!(out, shell("<pre><code>\ncode\n", "t", "s"));
}

#[test]
fn inline_spans_all_four() {
    assert_eq!(
        parse_line("**bold** and *italic* and `code` and [text](http://x)"),
        "<strong>bold</strong> and <em>italic</em> and <code>code</code> and <a href=\"http://x\">text</a>"
    );
}

#[test]
fn bold_resolved_before_italic() {
    assert_eq!(parse_line("**a**"), "<strong>a</strong>");
    assert!(!parse_line("**a**").contains("<em>"));
}

#[test]
fn lazy_spans_take_shortest_match() {
    assert_eq!(parse_line("*a* and *b*"), "<em>a</em> and <em>b</em>");
    assert_eq!(parse_line("`x` `y`"), "<code>x</code> <code>y</code>");
}

#[test]
fn link_needs_adjacent_parenthesis() {
    assert_eq!(parse_line("[a]x(b)"), "[a]x(b)");
    assert_eq!(parse_line("[a](b)"), "<a href=\"b\">a</a>");
}

#[test]
fn horizontal_rule_exact_line_only() {
    assert_eq!(parse_line("---"), "<hr/>");
    assert_eq!(parse_line("x---"), "x---");
    assert_eq!(parse_line("----"), "----");
}

#[test]
fn paragraph_grouping() {
    let out = convert_text("one\ntwo\n\nthree", "t", "s", false);
    assert_eq!(out, shell("<p>one two</p>\n\n<p>three</p>", "t", "s"));
}

#[test]
fn block_element_ends_paragraph() {
    let out = convert_text("one\n# h\ntwo", "t", "s", false);
    assert_eq!(out, shell("<p>one</p>\n<h1>h</h1>\n<p>two</p>", "t", "s"));
}

#[test]
fn empty_input_gives_empty_body() {
    let out = convert_text("", "t", "s", false);
    assert_eq!(out, shell("", "t", "s"));
}

#[test]
fn split_keeps_final_fragment_only_when_nonempty() {
    assert_eq!(split_lines("a\nb"), vec!["a".to_string(), "b".to_string()]);
    assert_eq!(split_lines("a\nb\n"), vec!["a".to_string(), "b".to_string()]);
    assert_eq!(
        split_lines("a\n\nb"),
        vec!["a".to_string(), "".to_string(), "b".to_string()]
    );
    assert_eq!(split_lines(""), Vec::<String>::new());
}

#[test]
fn convert_lines_closes_open_list_on_normal_line() {
    let lines: Vec<String> = vec!["<li>a</li>".to_string(), "".to_string()];
    let states = vec![State::UnorderedList, State::Normal];
    assert_eq!(convert_lines(&lines, &states), "<ul>\n<li>a</li>\n\n</ul>\n");
}

#[test]
fn wrap_html_live_mode_appends_script() {
    let live = wrap_html("b", "t", "s", true);
    assert!(live.contains("EventSource('/reload')"));
    assert!(live.ends_with("</body>"));
    let plain = wrap_html("b", "t", "s", false);
    assert_eq!(plain, shell("b", "t", "s"));
    assert!(!plain.contains("<script>"));
}

#[test]
fn title_and_style_inserted_verbatim() {
    let out = convert_text("x", "path/in.md", "body { color: red; }", false);
    assert!(out.contains("<title>path/in.md</title>"));
    assert!(out.contains("<style>body { color: red; }</style>"));
}
