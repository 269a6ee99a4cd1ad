//! Cross-checks of the rendered style bytes against the terminal styling
//! collaborator itself: every expected string here is built from termion's
//! own values, so these fail if the renderer's idea of a token drifts from
//! what the collaborator actually emits.

use mdless::event::{Event, Tag};
use mdless::render::push_tty;

fn text(s: &str) -> Event {
    Event::Text(s.to_string())
}

#[test]
fn bold_token_matches_termion() {
    let events = vec![
        Event::Start(Tag::Paragraph),
        Event::Start(Tag::Strong),
        text("s"),
        Event::End(Tag::Strong),
        Event::End(Tag::Paragraph),
    ];
    let out = push_tty(80, &events).unwrap();
    let bold = format!("{}", termion::style::Bold);
    let reset = format!("{}", termion::style::Reset);
    assert_eq!(out, format!("{bold}s{reset}{reset}\n"));
}

#[test]
fn italic_tokens_match_termion() {
    let events = vec![
        Event::Start(Tag::Paragraph),
        Event::Start(Tag::Emphasis),
        text("a"),
        Event::Start(Tag::Emphasis),
        text("b"),
        Event::End(Tag::Emphasis),
        Event::End(Tag::Emphasis),
        Event::End(Tag::Paragraph),
    ];
    let out = push_tty(80, &events).unwrap();
    let italic = format!("{}", termion::style::Italic);
    let no_italic = format!("{}", termion::style::NoItalic);
    let reset = format!("{}", termion::style::Reset);
    assert_eq!(out, format!("{italic}a{no_italic}b{reset}{italic}{reset}{reset}\n"));
}

#[test]
fn color_tokens_match_termion() {
    let events = vec![
        Event::Start(Tag::Paragraph),
        Event::Start(Tag::InlineCode),
        text("c"),
        Event::End(Tag::InlineCode),
        Event::End(Tag::Paragraph),
        Event::Start(Tag::Rule),
        Event::End(Tag::Rule),
    ];
    let out = push_tty(3, &events).unwrap();
    let yellow = termion::color::Yellow.fg_str();
    let light_black = termion::color::LightBlack.fg_str();
    let reset = format!("{}", termion::style::Reset);
    assert_eq!(
        out,
        format!(
            "{yellow}c{reset}{reset}\n{reset}\n{light_black}\u{2500}\u{2500}\u{2500}{reset}\n"
        )
    );
}

#[test]
fn link_color_matches_termion() {
    let events = vec![
        Event::Start(Tag::Paragraph),
        Event::Start(Tag::Link("http://example.com".to_string(), "t".to_string())),
        text("site"),
        Event::End(Tag::Link("http://example.com".to_string(), "t".to_string())),
        Event::End(Tag::Paragraph),
    ];
    let out = push_tty(80, &events).unwrap();
    let blue = termion::color::Blue.fg_str();
    assert!(out.contains(&format!("{blue}[1]")));
    assert!(out.contains(&format!("{blue}[1]: http://example.com t")));
}
