//! The mathematical model of the renderer: a ghost rendering context and a
//! pure step function from context and event to next context and output.
//!
//! The executable renderer is proved equal to this model; the laws the
//! library states are proved of the model.

use vstd::prelude::*;
use crate::event::{BlockLevel, Event, LinkM, ListFrame, RenderError, StyleDirective, Tag};
use crate::style::{reset_token, token_of};
use crate::text::{dec_rep, ordered_marker, repeated};

verus! {

/// The model of a rendering context: everything the transducer reads or
/// writes, the output text included.
#[verifier::ext_equal]
pub struct CtxM {
    /// The output text written so far.
    pub out: Seq<char>,
    /// The advisory column width, used only to size horizontal rules.
    pub columns: u16,
    /// The directives active at the cursor, in push order.
    pub styles: Seq<StyleDirective>,
    /// The emphasis nesting depth.
    pub emphasis: nat,
    /// The current indentation width in spaces.
    pub indent: nat,
    /// Whether the next content must begin on its own line.
    pub block: BlockLevel,
    /// One frame per open list, innermost last.
    pub lists: Seq<ListFrame>,
    /// Deferred link references in first-enqueue order.
    pub links: Seq<LinkM>,
    /// The index the next deferred link will get.
    pub next_index: nat,
    /// The most recently written literal text run.
    pub last_text: Option<Seq<char>>,
}

/// `a - b`, stopping at zero.
pub open spec fn sat_sub(a: nat, b: nat) -> nat {
    if a >= b {
        (a - b) as nat
    } else {
        0
    }
}

/// `styles` with its last directive removed, if it has one.
pub open spec fn pop_style(styles: Seq<StyleDirective>) -> Seq<StyleDirective> {
    if styles.len() == 0 {
        styles
    } else {
        styles.drop_last()
    }
}

/// The concatenation, in push order, of the tokens of every directive on
/// the stack: what a re-flush writes.
pub open spec fn flush_styles_text(styles: Seq<StyleDirective>) -> Seq<char>
    decreases styles.len(),
{
    if styles.len() == 0 {
        Seq::empty()
    } else {
        flush_styles_text(styles.drop_last()) + token_of(styles.last())
    }
}

/// Write `t` to the output.
pub open spec fn sp_write(c: CtxM, t: Seq<char>) -> CtxM {
    CtxM { out: c.out + t, ..c }
}

/// A line break: reset the terminal's styling, start a new line, then
/// reissue every active directive in push order.
pub open spec fn sp_newline(c: CtxM) -> CtxM {
    sp_write(c, reset_token() + "\n"@ + flush_styles_text(c.styles))
}

/// Write the current indentation whitespace.
pub open spec fn sp_indent(c: CtxM) -> CtxM {
    sp_write(c, repeated(" "@, c.indent))
}

/// A line break followed by the current indentation.
pub open spec fn sp_newline_and_indent(c: CtxM) -> CtxM {
    sp_indent(sp_newline(c))
}

/// Push a directive and write its token at once.
pub open spec fn sp_push_style(c: CtxM, d: StyleDirective) -> CtxM {
    CtxM { out: c.out + token_of(d), styles: c.styles.push(d), ..c }
}

/// Pop the last directive, write the reset token, and reissue what remains.
pub open spec fn sp_reset_last_style(c: CtxM) -> CtxM {
    let styles = pop_style(c.styles);
    CtxM { out: c.out + reset_token() + flush_styles_text(styles), styles, ..c }
}

/// Enter inline mode, breaking the line first when in block mode.
pub open spec fn sp_start_inline(c: CtxM) -> CtxM {
    let c1 = if c.block is Block {
        sp_newline_and_indent(c)
    } else {
        c
    };
    CtxM { block: BlockLevel::Inline, ..c1 }
}

/// Return to block mode, ending an inline run with a line break.
pub open spec fn sp_end_inline(c: CtxM) -> CtxM {
    let c1 = if c.block is Inline {
        sp_newline(c)
    } else {
        c
    };
    CtxM { block: BlockLevel::Block, ..c1 }
}

/// Enter one level of emphasis: italic at odd depth, upright at even depth,
/// so nested emphasis alternates slant.
pub open spec fn sp_enable_emphasis(c: CtxM) -> CtxM {
    let c1 = CtxM { emphasis: c.emphasis + 1, ..c };
    sp_push_style(c1, if c1.emphasis % 2 == 1 {
        StyleDirective::Italic
    } else {
        StyleDirective::NoItalic
    })
}

/// One reference line: the bracketed index, the destination, the title.
pub open spec fn link_line(l: LinkM) -> Seq<char> {
    "["@ + dec_rep(l.index) + "]: "@ + l.destination + " "@ + l.title
}

/// The text of the whole reference list, one line per link in enqueue
/// order, each ended by a line break under the given style stack.
pub open spec fn links_text(ls: Seq<LinkM>, styles: Seq<StyleDirective>) -> Seq<char>
    decreases ls.len(),
{
    if ls.len() == 0 {
        Seq::empty()
    } else {
        link_line(ls.first()) + reset_token() + "\n"@ + flush_styles_text(styles)
            + links_text(ls.drop_first(), styles)
    }
}

/// Flush the deferred links: a no-op when none are pending, else a line
/// break, the link color, one reference line per link, and a style reset.
pub open spec fn sp_flush_links(c: CtxM) -> CtxM {
    if c.links.len() == 0 {
        c
    } else {
        let c1 = sp_push_style(sp_newline(c), StyleDirective::FgBlue);
        let c2 = CtxM { out: c1.out + links_text(c.links, c1.styles), links: Seq::empty(), ..c1 };
        sp_reset_last_style(c2)
    }
}

/// Close a link: suppress the reference when the visible text already is
/// the destination, else enqueue it and write its bracketed index.
pub open spec fn sp_end_link(c: CtxM, dest: Seq<char>, title: Seq<char>) -> CtxM {
    if c.last_text == Some(dest) {
        c
    } else {
        let l = LinkM { index: c.next_index, destination: dest, title };
        let c1 = CtxM { links: c.links.push(l), next_index: c.next_index + 1, ..c };
        let c2 = sp_push_style(c1, StyleDirective::FgBlue);
        let c3 = sp_write(c2, "["@ + dec_rep(l.index) + "]"@);
        sp_reset_last_style(c3)
    }
}

/// What a start tag does to the context.
pub open spec fn sp_start_tag(c: CtxM, tag: Tag) -> Result<CtxM, RenderError> {
    match tag {
        Tag::Paragraph => Ok(sp_start_inline(c)),
        Tag::Rule => Ok(
            sp_write(
                sp_push_style(sp_start_inline(c), StyleDirective::FgLightBlack),
                repeated("\u{2500}"@, c.columns as nat),
            ),
        ),
        Tag::Header(level) => {
            let c1 = sp_start_inline(sp_flush_links(c));
            let c2 = sp_write(c1, repeated("\u{2504}"@, sat_sub(level as nat, 1)));
            Ok(sp_push_style(sp_push_style(c2, StyleDirective::Bold), StyleDirective::FgBlue))
        },
        Tag::BlockQuote => Ok(
            sp_enable_emphasis(
                sp_push_style(
                    sp_start_inline(CtxM { indent: c.indent + 4, ..c }),
                    StyleDirective::FgLightBlack,
                ),
            ),
        ),
        Tag::CodeBlock => Ok(sp_push_style(sp_start_inline(c), StyleDirective::FgYellow)),
        Tag::List(kind) => {
            let frame = match kind {
                Some(s) => ListFrame::Ordered(s as u128),
                None => ListFrame::Unordered,
            };
            Ok(sp_newline(CtxM { lists: c.lists.push(frame), ..c }))
        },
        Tag::Item => {
            if c.lists.len() == 0 {
                Err(RenderError::ItemOutsideList)
            } else {
                let c1 = CtxM { block: BlockLevel::Inline, ..sp_indent(c) };
                match c.lists.last() {
                    ListFrame::Unordered => Ok(
                        CtxM { out: c1.out + "\u{2022} "@, indent: c1.indent + 2, ..c1 },
                    ),
                    ListFrame::Ordered(n) => Ok(
                        CtxM {
                            out: c1.out + ordered_marker(n as nat),
                            indent: c1.indent + 4,
                            lists: c1.lists.drop_last().push(
                                ListFrame::Ordered(((n + 1) as u128)),
                            ),
                            ..c1
                        },
                    ),
                }
            }
        },
        Tag::Emphasis => Ok(sp_enable_emphasis(c)),
        Tag::Strong => Ok(sp_push_style(c, StyleDirective::Bold)),
        Tag::InlineCode => Ok(sp_push_style(c, StyleDirective::FgYellow)),
        Tag::Link(_dest, _title) => Ok(c),
        Tag::Unsupported(k) => Err(RenderError::Unsupported(k)),
    }
}

/// What an end tag does to the context.
pub open spec fn sp_end_tag(c: CtxM, tag: Tag) -> Result<CtxM, RenderError> {
    match tag {
        Tag::Paragraph => Ok(sp_end_inline(c)),
        Tag::Rule => Ok(sp_end_inline(CtxM { styles: pop_style(c.styles), ..c })),
        Tag::Header(_level) => Ok(
            sp_end_inline(CtxM { styles: pop_style(pop_style(c.styles)), ..c }),
        ),
        Tag::BlockQuote => {
            let c1 = CtxM {
                indent: sat_sub(c.indent, 4),
                emphasis: sat_sub(c.emphasis, 1),
                styles: pop_style(c.styles),
                ..c
            };
            Ok(sp_end_inline(sp_reset_last_style(c1)))
        },
        Tag::CodeBlock => Ok(sp_end_inline(sp_reset_last_style(c))),
        Tag::List(_kind) => Ok(
            sp_end_inline(
                CtxM {
                    lists: if c.lists.len() == 0 {
                        c.lists
                    } else {
                        c.lists.drop_last()
                    },
                    ..c
                },
            ),
        ),
        Tag::Item => {
            let indent = if c.lists.len() == 0 {
                c.indent
            } else {
                match c.lists.last() {
                    ListFrame::Ordered(_n) => sat_sub(c.indent, 4),
                    ListFrame::Unordered => sat_sub(c.indent, 2),
                }
            };
            Ok(sp_end_inline(CtxM { indent, ..c }))
        },
        Tag::Emphasis => {
            let c1 = sp_reset_last_style(c);
            Ok(CtxM { emphasis: sat_sub(c1.emphasis, 1), ..c1 })
        },
        Tag::Strong => Ok(sp_reset_last_style(c)),
        Tag::InlineCode => Ok(sp_reset_last_style(c)),
        Tag::Link(dest, title) => Ok(sp_end_link(c, dest@, title@)),
        Tag::Unsupported(k) => Err(RenderError::Unsupported(k)),
    }
}

/// What one event does to the context.
pub open spec fn sp_step(c: CtxM, e: Event) -> Result<CtxM, RenderError> {
    match e {
        Event::Text(t) => Ok(CtxM { out: c.out + t@, last_text: Some(t@), ..c }),
        Event::SoftBreak => Ok(sp_newline_and_indent(c)),
        Event::HardBreak => Ok(sp_newline_and_indent(c)),
        Event::Start(tag) => sp_start_tag(c, tag),
        Event::End(tag) => sp_end_tag(c, tag),
        Event::Unsupported(k) => Err(RenderError::Unsupported(k)),
    }
}

/// The fresh context a render call starts from: no output, no styles, no
/// open lists, no pending links, inline mode, link indices from one.
pub open spec fn sp_init(columns: u16) -> CtxM {
    CtxM {
        out: Seq::empty(),
        columns,
        styles: Seq::empty(),
        emphasis: 0,
        indent: 0,
        block: BlockLevel::Inline,
        lists: Seq::empty(),
        links: Seq::empty(),
        next_index: 1,
        last_text: None,
    }
}

/// Run the transducer over a whole event sequence, stopping at the first
/// failure.
pub open spec fn sp_run(c: CtxM, es: Seq<Event>) -> Result<CtxM, RenderError>
    decreases es.len(),
{
    if es.len() == 0 {
        Ok(c)
    } else {
        match sp_run(c, es.drop_last()) {
            Ok(c1) => sp_step(c1, es.last()),
            Err(e) => Err(e),
        }
    }
}

/// The output of a whole render call: run every event, then flush the
/// remaining deferred links once.
pub open spec fn spec_render(es: Seq<Event>, columns: u16) -> Result<Seq<char>, RenderError> {
    match sp_run(sp_init(columns), es) {
        Ok(c) => Ok(sp_flush_links(c).out),
        Err(e) => Err(e),
    }
}

/// Every ordered frame's counter is at most `k` above the largest start
/// value a list tag can carry.
pub open spec fn frames_bounded(ls: Seq<ListFrame>, k: int) -> bool {
    forall|j: int|
        0 <= j < ls.len() ==> match #[trigger] ls[j] {
            ListFrame::Ordered(n) => n <= u64::MAX + k,
            ListFrame::Unordered => true,
        }
}

/// The pending links carry consecutive indices ending just below the next
/// index, and every index is at least one.
pub open spec fn links_indexed(c: CtxM) -> bool {
    &&& c.links.len() < c.next_index
    &&& forall|i: int|
        0 <= i < c.links.len() ==> #[trigger] c.links[i].index == c.next_index - c.links.len()
            + i
}

/// What holds of every context reachable after `k` events: each counter is
/// bounded by what `k` events can have done to it, and the pending links
/// are consecutively indexed.
pub open spec fn wf_at(c: CtxM, k: int) -> bool {
    &&& 0 <= k
    &&& c.emphasis <= k
    &&& c.indent <= 4 * k
    &&& c.lists.len() <= k
    &&& c.next_index <= k + 1
    &&& 1 <= c.next_index
    &&& frames_bounded(c.lists, k)
    &&& links_indexed(c)
}

/// One step keeps the context well formed, with the event count one higher.
pub proof fn lemma_step_wf(c: CtxM, e: Event, k: int)
    requires
        wf_at(c, k),
        sp_step(c, e) is Ok,
    ensures
        wf_at(sp_step(c, e)->Ok_0, k + 1),
{
    let c2 = sp_step(c, e)->Ok_0;
    match e {
        Event::Start(tag) => {
            match tag {
                Tag::Header(_level) => {
                    assert(links_indexed(c2));
                },
                Tag::List(kind) => {
                    assert(frames_bounded(c2.lists, k + 1)) by {
                        assert(forall|j: int|
                            0 <= j < c.lists.len() ==> c2.lists[j] == c.lists[j]);
                    }
                },
                Tag::Item => {
                    if c.lists.len() > 0 {
                        match c.lists.last() {
                            ListFrame::Ordered(n) => {
                                assert(frames_bounded(c2.lists, k + 1)) by {
                                    assert(forall|j: int|
                                        0 <= j < c.lists.len() - 1 ==> c2.lists[j]
                                            == c.lists[j]);
                                }
                            },
                            ListFrame::Unordered => {},
                        }
                    }
                },
                _ => {},
            }
        },
        Event::End(tag) => {
            match tag {
                Tag::List(_kind) => {
                    if c.lists.len() > 0 {
                        assert(frames_bounded(c2.lists, k + 1)) by {
                            assert(forall|j: int|
                                0 <= j < c.lists.len() - 1 ==> c2.lists[j] == c.lists[j]);
                        }
                    }
                },
                Tag::Link(dest, title) => {
                    if c.last_text != Some(dest@) {
                        assert(links_indexed(c2)) by {
                            assert(forall|i: int|
                                0 <= i < c.links.len() ==> c2.links[i] == c.links[i]);
                            assert(c2.links[c.links.len() as int].index == c.next_index);
                        }
                    }
                },
                _ => {},
            }
        },
        _ => {},
    }
}

/// A well-formed run: the context after any successful run of `es` is well
/// formed at `es.len()`.
pub proof fn lemma_run_wf(c0: CtxM, es: Seq<Event>, k0: int)
    requires
        wf_at(c0, k0),
        sp_run(c0, es) is Ok,
    ensures
        wf_at(sp_run(c0, es)->Ok_0, k0 + es.len()),
    decreases es.len(),
{
    if es.len() > 0 {
        lemma_run_wf(c0, es.drop_last(), k0);
        lemma_step_wf(sp_run(c0, es.drop_last())->Ok_0, es.last(), k0 + es.len() - 1);
    }
}

/// A run over a concatenation is the run over the first part, continued
/// over the second when the first succeeded.
pub proof fn lemma_run_concat(c: CtxM, a: Seq<Event>, b: Seq<Event>)
    ensures
        sp_run(c, a + b) == (match sp_run(c, a) {
            Ok(c1) => sp_run(c1, b),
            Err(e) => Err(e),
        }),
    decreases b.len(),
{
    if b.len() == 0 {
        assert(a + b =~= a);
    } else {
        assert((a + b).drop_last() =~= a + b.drop_last());
        assert((a + b).last() == b.last());
        lemma_run_concat(c, a, b.drop_last());
    }
}

/// A run over one event is one step.
pub proof fn lemma_run_single(c: CtxM, e: Event)
    ensures
        sp_run(c, seq![e]) == sp_step(c, e),
{
    assert(seq![e].drop_last() =~= Seq::<Event>::empty());
    assert(seq![e].last() == e);
    assert(sp_run(c, Seq::<Event>::empty()) == Ok::<CtxM, RenderError>(c));
}

/// Once a prefix fails, the whole run fails with the same error.
pub proof fn lemma_run_err_persists(c0: CtxM, es: Seq<Event>, k: int)
    requires
        0 <= k <= es.len(),
        sp_run(c0, es.take(k)) is Err,
    ensures
        sp_run(c0, es) == sp_run(c0, es.take(k)),
    decreases es.len() - k,
{
    if k == es.len() {
        assert(es.take(k) =~= es);
    } else {
        assert(es.take(k + 1).drop_last() =~= es.take(k));
        lemma_run_err_persists(c0, es, k + 1);
    }
}

} // verus!
