use sawzall::blocks::is_block_element;
use sawzall::extract::{extract, html_to_plain};
use sawzall::items::{Event, NodeData};
use sawzall::text::is_whitespace_only;

fn enter_element(tag: &str) -> Event {
    Event::Enter(NodeData::Element { tag: tag.to_string() })
}

fn exit_element(tag: &str) -> Event {
    Event::Exit(NodeData::Element { tag: tag.to_string() })
}

fn enter_text(content: &str) -> Event {
    Event::Enter(NodeData::Text { content: content.to_string() })
}

fn exit_text(content: &str) -> Event {
    Event::Exit(NodeData::Text { content: content.to_string() })
}

#[test]
fn test_html_to_plain() {
    assert_eq!("", html_to_plain(""));

    assert_eq!(
        "this is just text",
        html_to_plain("this is just text"),
        "regular text is returned as-is"
    );

    assert_eq!(
        "this is a single paragraph",
        html_to_plain("<p>this is a single paragraph</p>"),
        "single paragraphs do not get leading and trailing newlines"
    );

    assert_eq!(
        "this is a single div",
        html_to_plain("<div>this is a single div</div>"),
        "single block elements do not get leading and trailing newlines"
    );

    assert_eq!(
        "text like <html> is correctly unescaped",
        html_to_plain("<h1>text like &lt;html&gt; is correctly unescaped</h1>"),
        "html-escaped text is correctly unescaped"
    );

    assert_eq!(
        "this bold text is special",
        html_to_plain("<p>this <em>bold</em> text is <span>special</span></p>"),
        "inline elements don't introduce newlines"
    );

    assert_eq!(
        "some deeply nested text",
        html_to_plain("<header><div><h1>some deeply nested text</h1></div></header>"),
        "subsequent block elements do not introduce duplicate newlines"
    );

    assert_eq!(
        "line one\nline two",
        html_to_plain("line one<br>line two"),
        "<br> introduces a single newline"
    );

    assert_eq!(
        "paragraph one\n\nparagraph two",
        html_to_plain("<p>paragraph one</p><p>paragraph two</p>"),
        "paragraphs are separated by two newlines"
    );

    assert_eq!(
        "paragraph one\n\nparagraph two\n\nparagraph three",
        html_to_plain("<p>paragraph one</p><p>paragraph two</p><p>paragraph three</p>"),
        "paragraphs not at the beginning or end are wrapped in two newlines"
    );

    assert_eq!(
        "malformed input\n🙌",
        html_to_plain("<h1>malformed input</br><ul>🙌"),
        "malformed input is handled"
    );

    assert_eq!(
        "Hello, world\n\nThis is an HTML fragment",
        html_to_plain("<h1>Hello, world</h1>\n<p>This is an HTML fragment</p>"),
        "empty lines are ignored"
    );
}

#[test]
fn empty_traversal_extracts_to_empty_string() {
    let events: Vec<Event> = Vec::new();
    assert_eq!("", extract(&events));
}

#[test]
fn text_only_traversal_is_returned_verbatim() {
    let events = vec![enter_text("hello world"), exit_text("hello world")];
    assert_eq!("hello world", extract(&events));
}

#[test]
fn single_block_wrapper_adds_no_newlines() {
    let events = vec![
        enter_element("div"),
        enter_text("X"),
        exit_text("X"),
        exit_element("div"),
    ];
    assert_eq!("X", extract(&events));
}

#[test]
fn sibling_paragraphs_are_joined_by_two_newlines() {
    let events = vec![
        enter_element("p"),
        enter_text("A"),
        exit_text("A"),
        exit_element("p"),
        enter_element("p"),
        enter_text("B"),
        exit_text("B"),
        exit_element("p"),
    ];
    assert_eq!("A\n\nB", extract(&events));
}

#[test]
fn three_sibling_paragraphs_are_each_joined_by_two_newlines() {
    assert_eq!("A\n\nB\n\nC", html_to_plain("<p>A</p><p>B</p><p>C</p>"));
}

#[test]
fn br_between_text_runs_inserts_one_newline() {
    let events = vec![
        enter_text("line one"),
        exit_text("line one"),
        enter_element("br"),
        exit_element("br"),
        enter_text("line two"),
        exit_text("line two"),
    ];
    assert_eq!("line one\nline two", extract(&events));
}

#[test]
fn nested_blocks_collapse_to_no_added_newlines() {
    let events = vec![
        enter_element("header"),
        enter_element("div"),
        enter_element("h1"),
        enter_text("T"),
        exit_text("T"),
        exit_element("h1"),
        exit_element("div"),
        exit_element("header"),
    ];
    assert_eq!("T", extract(&events));
}

#[test]
fn inline_elements_introduce_no_newlines() {
    let events = vec![
        enter_element("p"),
        enter_text("A "),
        exit_text("A "),
        enter_element("em"),
        enter_text("B"),
        exit_text("B"),
        exit_element("em"),
        enter_text(" C"),
        exit_text(" C"),
        exit_element("p"),
    ];
    assert_eq!("A B C", extract(&events));
}

#[test]
fn whitespace_only_text_nodes_are_dropped() {
    let events = vec![
        enter_element("p"),
        enter_text("a"),
        exit_text("a"),
        exit_element("p"),
        enter_text(" \t\n "),
        exit_text(" \t\n "),
        enter_element("p"),
        enter_text("b"),
        exit_text("b"),
        exit_element("p"),
    ];
    assert_eq!("a\n\nb", extract(&events));
}

#[test]
fn extraction_is_deterministic_across_calls() {
    let events = vec![
        enter_element("p"),
        enter_text("once"),
        exit_text("once"),
        exit_element("p"),
        enter_element("p"),
        enter_text("twice"),
        exit_text("twice"),
        exit_element("p"),
    ];
    assert_eq!(extract(&events), extract(&events));
    let html = "<h1>Hello</h1><p>again</p>";
    assert_eq!(html_to_plain(html), html_to_plain(html));
}

#[test]
fn unclosed_block_elements_still_collapse_breaks() {
    assert_eq!("one\ntwo", html_to_plain("<div>one<div>two"));
}

#[test]
fn block_transition_collapses_to_the_larger_break() {
    let events = vec![
        enter_element("h1"),
        enter_text("A"),
        exit_text("A"),
        exit_element("h1"),
        enter_element("ul"),
        enter_text("B"),
        exit_text("B"),
        exit_element("ul"),
    ];
    assert_eq!("A\nB", extract(&events));
    assert_eq!("A\n\nB", html_to_plain("<h1>A</h1><p>B</p>"));
}

#[test]
fn block_element_names_are_recognised() {
    assert!(is_block_element("div"));
    assert!(is_block_element("p"));
    assert!(is_block_element("h1"));
    assert!(is_block_element("ul"));
    assert!(is_block_element("blockquote"));
    assert!(!is_block_element("em"));
    assert!(!is_block_element("span"));
    assert!(!is_block_element("br"));
    assert!(!is_block_element("DIV"), "membership is case-sensitive");
}

#[test]
fn whitespace_only_covers_unicode_whitespace() {
    assert!(is_whitespace_only(""));
    assert!(is_whitespace_only(" \t\r\n"));
    assert!(is_whitespace_only("\u{a0}\u{2003}\u{3000}"));
    assert!(!is_whitespace_only("a "));
    assert!(!is_whitespace_only("🙌"));
}

#[test]
fn non_breaking_space_text_node_is_dropped() {
    assert_eq!("", html_to_plain("<p>&nbsp;</p>"));
}
