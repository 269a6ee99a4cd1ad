//! End-to-end tests of the renderer through its public entry point.

use mdless::event::{Event, RenderError, Tag, UnsupportedKind};
use mdless::render::push_tty;

const RESET: &str = "\u{1b}[m";
const BOLD: &str = "\u{1b}[1m";
const ITALIC: &str = "\u{1b}[3m";
const NO_ITALIC: &str = "\u{1b}[23m";
const BLUE: &str = "\u{1b}[38;5;4m";
const YELLOW: &str = "\u{1b}[38;5;3m";
const LIGHT_BLACK: &str = "\u{1b}[38;5;8m";

fn text(s: &str) -> Event {
    Event::Text(s.to_string())
}

fn link(dest: &str, title: &str) -> Tag {
    Tag::Link(dest.to_string(), title.to_string())
}

#[test]
fn empty_stream_renders_nothing() {
    let out = push_tty(80, &vec![]).unwrap();
    assert_eq!(out, "");
}

#[test]
fn paragraph_hi() {
    let events = vec![Event::Start(Tag::Paragraph), text("hi"), Event::End(Tag::Paragraph)];
    let out = push_tty(80, &events).unwrap();
    assert_eq!(out, format!("hi{}\n", RESET));
}

#[test]
fn two_paragraphs_separated_by_break() {
    let events = vec![
        Event::Start(Tag::Paragraph),
        text("a"),
        Event::End(Tag::Paragraph),
        Event::Start(Tag::Paragraph),
        text("b"),
        Event::End(Tag::Paragraph),
    ];
    let out = push_tty(80, &events).unwrap();
    // The second paragraph opens from block mode, so it breaks the line
    // first; initial mode is inline, so the first does not.
    assert_eq!(out, format!("a{RESET}\n{RESET}\nb{RESET}\n"));
}

#[test]
fn unordered_list_two_items() {
    let events = vec![
        Event::Start(Tag::List(None)),
        Event::Start(Tag::Item),
        text("a"),
        Event::End(Tag::Item),
        Event::Start(Tag::Item),
        text("b"),
        Event::End(Tag::Item),
        Event::End(Tag::List(None)),
    ];
    let out = push_tty(80, &events).unwrap();
    assert_eq!(out, format!("{RESET}\n\u{2022} a{RESET}\n\u{2022} b{RESET}\n"));
    for line in out.lines().skip(1) {
        assert!(line.starts_with("\u{2022} "));
    }
}

#[test]
fn ordered_list_numbering_from_start_value() {
    let events = vec![
        Event::Start(Tag::List(Some(3))),
        Event::Start(Tag::Item),
        text("a"),
        Event::End(Tag::Item),
        Event::Start(Tag::Item),
        text("b"),
        Event::End(Tag::Item),
        Event::End(Tag::List(Some(3))),
    ];
    let out = push_tty(80, &events).unwrap();
    assert_eq!(out, format!("{RESET}\n 3. a{RESET}\n 4. b{RESET}\n"));
}

#[test]
fn ordered_list_wide_numbers_unpadded() {
    let events = vec![
        Event::Start(Tag::List(Some(99))),
        Event::Start(Tag::Item),
        text("a"),
        Event::End(Tag::Item),
        Event::Start(Tag::Item),
        text("b"),
        Event::End(Tag::Item),
        Event::End(Tag::List(Some(99))),
    ];
    let out = push_tty(80, &events).unwrap();
    assert_eq!(out, format!("{RESET}\n99. a{RESET}\n100. b{RESET}\n"));
}

#[test]
fn nested_list_indents_inner_items() {
    let events = vec![
        Event::Start(Tag::List(None)),
        Event::Start(Tag::Item),
        text("outer"),
        Event::Start(Tag::List(None)),
        Event::Start(Tag::Item),
        text("inner"),
        Event::End(Tag::Item),
        Event::End(Tag::List(None)),
        Event::End(Tag::Item),
        Event::End(Tag::List(None)),
    ];
    let out = push_tty(80, &events).unwrap();
    // The inner item is written under the outer item's indentation of two.
    assert!(out.contains(&format!("{RESET}\n  \u{2022} inner")));
}

#[test]
fn autolink_suppressed() {
    let events = vec![
        Event::Start(Tag::Paragraph),
        Event::Start(link("http://example.com", "")),
        text("http://example.com"),
        Event::End(link("http://example.com", "")),
        Event::End(Tag::Paragraph),
    ];
    let out = push_tty(80, &events).unwrap();
    assert_eq!(out, format!("http://example.com{RESET}\n"));
    assert!(!out.contains("[1]"));
}

#[test]
fn link_with_differing_text_gets_reference() {
    let events = vec![
        Event::Start(Tag::Paragraph),
        Event::Start(link("http://example.com", "title")),
        text("site"),
        Event::End(link("http://example.com", "title")),
        Event::End(Tag::Paragraph),
    ];
    let out = push_tty(80, &events).unwrap();
    let expected = format!(
        "site{BLUE}[1]{RESET}{RESET}\n{RESET}\n{BLUE}[1]: http://example.com title{RESET}\n{BLUE}{RESET}"
    );
    assert_eq!(out, expected);
    assert!(out.contains("[1]"));
    assert!(out.contains("[1]: http://example.com title"));
}

#[test]
fn link_indices_count_only_unsuppressed_links() {
    let events = vec![
        Event::Start(Tag::Paragraph),
        Event::Start(link("http://a.example", "a")),
        text("first"),
        Event::End(link("http://a.example", "a")),
        Event::Start(link("http://b.example", "")),
        text("http://b.example"),
        Event::End(link("http://b.example", "")),
        Event::Start(link("http://c.example", "c")),
        text("third"),
        Event::End(link("http://c.example", "c")),
        Event::End(Tag::Paragraph),
    ];
    let out = push_tty(80, &events).unwrap();
    assert!(out.contains("[1]"));
    assert!(out.contains("[2]"));
    assert!(!out.contains("[3]"));
    assert!(out.contains("[1]: http://a.example a"));
    assert!(out.contains("[2]: http://c.example c"));
}

#[test]
fn header_writes_ticks_and_styles_and_flushes_links_first() {
    let events = vec![
        Event::Start(Tag::Paragraph),
        Event::Start(link("http://example.com", "t")),
        text("site"),
        Event::End(link("http://example.com", "t")),
        Event::End(Tag::Paragraph),
        Event::Start(Tag::Header(2)),
        text("T"),
        Event::End(Tag::Header(2)),
    ];
    let out = push_tty(80, &events).unwrap();
    // The reference line comes before the header's own text.
    let reference = out.find("[1]: http://example.com t").unwrap();
    let header = out.find("\u{2504}").unwrap();
    assert!(reference < header);
    assert!(out.contains(&format!("\u{2504}{BOLD}{BLUE}T")));
}

#[test]
fn header_level_one_has_no_ticks() {
    let events = vec![Event::Start(Tag::Header(1)), text("T"), Event::End(Tag::Header(1))];
    let out = push_tty(80, &events).unwrap();
    assert_eq!(out, format!("{BOLD}{BLUE}T{RESET}\n"));
}

#[test]
fn rule_spans_columns() {
    let events = vec![Event::Start(Tag::Rule), Event::End(Tag::Rule)];
    let out = push_tty(5, &events).unwrap();
    assert_eq!(out, format!("{LIGHT_BLACK}\u{2500}\u{2500}\u{2500}\u{2500}\u{2500}{RESET}\n"));
}

#[test]
fn block_quote_dims_and_italicizes() {
    let events = vec![Event::Start(Tag::BlockQuote), text("q"), Event::End(Tag::BlockQuote)];
    let out = push_tty(80, &events).unwrap();
    assert_eq!(out, format!("{LIGHT_BLACK}{ITALIC}q{RESET}{RESET}\n"));
}

#[test]
fn nested_emphasis_alternates_slant() {
    let events = vec![
        Event::Start(Tag::Paragraph),
        Event::Start(Tag::Emphasis),
        text("a"),
        Event::Start(Tag::Emphasis),
        text("b"),
        Event::End(Tag::Emphasis),
        Event::End(Tag::Emphasis),
        Event::End(Tag::Paragraph),
    ];
    let out = push_tty(80, &events).unwrap();
    // Depth one is italic, depth two switches back to upright; each end
    // resets and reissues what remains on the stack.
    assert_eq!(
        out,
        format!("{ITALIC}a{NO_ITALIC}b{RESET}{ITALIC}{RESET}{RESET}\n")
    );
}

#[test]
fn strong_and_inline_code_styles() {
    let events = vec![
        Event::Start(Tag::Paragraph),
        Event::Start(Tag::Strong),
        text("s"),
        Event::End(Tag::Strong),
        Event::Start(Tag::InlineCode),
        text("c"),
        Event::End(Tag::InlineCode),
        Event::End(Tag::Paragraph),
    ];
    let out = push_tty(80, &events).unwrap();
    assert_eq!(out, format!("{BOLD}s{RESET}{YELLOW}c{RESET}{RESET}\n"));
}

#[test]
fn breaks_reflush_active_styles_and_indent() {
    let events = vec![
        Event::Start(Tag::Paragraph),
        Event::Start(Tag::Strong),
        text("a"),
        Event::SoftBreak,
        text("b"),
        Event::HardBreak,
        text("c"),
        Event::End(Tag::Strong),
        Event::End(Tag::Paragraph),
    ];
    let out = push_tty(80, &events).unwrap();
    // After each break the bold directive is reissued.
    assert_eq!(
        out,
        format!("{BOLD}a{RESET}\n{BOLD}b{RESET}\n{BOLD}c{RESET}{RESET}\n")
    );
}

#[test]
fn code_block_is_colored() {
    let events = vec![
        Event::Start(Tag::Paragraph),
        text("p"),
        Event::End(Tag::Paragraph),
        Event::Start(Tag::CodeBlock),
        text("let x;\n"),
        Event::End(Tag::CodeBlock),
    ];
    let out = push_tty(80, &events).unwrap();
    assert_eq!(
        out,
        format!("p{RESET}\n{RESET}\n{YELLOW}let x;\n{RESET}{RESET}\n")
    );
}

#[test]
fn unsupported_table_fails_with_no_output() {
    let events = vec![
        Event::Start(Tag::Paragraph),
        text("before"),
        Event::Start(Tag::Unsupported(UnsupportedKind::Table)),
        text("cell"),
    ];
    let r = push_tty(80, &events);
    assert_eq!(r.unwrap_err(), RenderError::Unsupported(UnsupportedKind::Table));
}

#[test]
fn unsupported_markers_fail() {
    for kind in [
        UnsupportedKind::HtmlBlock,
        UnsupportedKind::InlineHtml,
        UnsupportedKind::FootnoteReference,
    ] {
        let r = push_tty(80, &vec![Event::Unsupported(kind)]);
        assert_eq!(r.unwrap_err(), RenderError::Unsupported(kind));
    }
}

#[test]
fn unsupported_image_tag_fails() {
    let r = push_tty(80, &vec![Event::Start(Tag::Unsupported(UnsupportedKind::Image))]);
    assert_eq!(r.unwrap_err(), RenderError::Unsupported(UnsupportedKind::Image));
}

#[test]
fn item_outside_list_fails() {
    let r = push_tty(80, &vec![Event::Start(Tag::Item)]);
    assert_eq!(r.unwrap_err(), RenderError::ItemOutsideList);
}

#[test]
fn block_quote_indents_continuation_lines() {
    let events = vec![
        Event::Start(Tag::BlockQuote),
        text("a"),
        Event::SoftBreak,
        text("b"),
        Event::End(Tag::BlockQuote),
    ];
    let out = push_tty(80, &events).unwrap();
    // The break reissues the quote's two directives, then writes the
    // quote's four-space indentation.
    assert!(out.contains(&format!("a{RESET}\n{LIGHT_BLACK}{ITALIC}    b")));
}

#[test]
fn ordered_list_numbering_continues_past_the_start_type() {
    let events = vec![
        Event::Start(Tag::List(Some(u64::MAX))),
        Event::Start(Tag::Item),
        text("a"),
        Event::End(Tag::Item),
        Event::Start(Tag::Item),
        text("b"),
        Event::End(Tag::Item),
        Event::End(Tag::List(Some(u64::MAX))),
    ];
    let out = push_tty(80, &events).unwrap();
    assert!(out.contains("18446744073709551615. a"));
    assert!(out.contains("18446744073709551616. b"));
}

#[test]
fn indentation_returns_after_closing_a_block() {
    let events = vec![
        Event::Start(Tag::BlockQuote),
        text("q"),
        Event::End(Tag::BlockQuote),
        Event::Start(Tag::Paragraph),
        text("a"),
        Event::SoftBreak,
        text("b"),
        Event::End(Tag::Paragraph),
    ];
    let out = push_tty(80, &events).unwrap();
    // After the quote closes, its four-space indentation is gone: the
    // break before `b` writes a bare line start.
    assert!(out.ends_with(&format!("a{RESET}\nb{RESET}\n")));
}

#[test]
fn item_end_outside_list_changes_no_indentation() {
    // The defensive default: an unmatched item end tag only closes the
    // block; it is not an error and leaves indentation alone.
    let out = push_tty(80, &vec![Event::End(Tag::Item)]).unwrap();
    assert_eq!(out, format!("{RESET}\n"));
}

#[test]
fn error_messages_name_the_construct() {
    assert_eq!(
        RenderError::Unsupported(UnsupportedKind::Table).message(),
        "tables are not supported"
    );
    assert_eq!(
        RenderError::Unsupported(UnsupportedKind::Image).message(),
        "images are not supported"
    );
    assert_eq!(RenderError::ItemOutsideList.message(), "list item without an open list");
}
