//! The executable renderer: the rendering context, the tag state machine,
//! the event dispatcher, and the whole-stream entry point.
//!
//! Every function here is proved equal to the model in [`crate::model`].

use vstd::prelude::*;
use vstd::string::StringExecFns;
use std::collections::VecDeque;
use crate::event::{BlockLevel, Event, Link, ListFrame, RenderError, StyleDirective, Tag};
use crate::model::{
    sp_end_inline, sp_end_link, sp_end_tag, sp_enable_emphasis, sp_flush_links, sp_indent,
    sp_init, sp_newline, sp_newline_and_indent, sp_push_style, sp_reset_last_style, sp_run,
    sp_start_inline, sp_start_tag, sp_step, sp_write, flush_styles_text, links_text,
    lemma_run_err_persists, lemma_step_wf, spec_render, wf_at, CtxM,
};
use crate::style::{reset_text, style_text, token_of};
use crate::text::{dec_rep, digit_str, repeated};

verus! {

/// The state of one rendering pass; its model is [`CtxM`].
pub struct Context {
    out: String,
    columns: u16,
    active_styles: Vec<StyleDirective>,
    emphasis_level: usize,
    indent_level: usize,
    block_level: BlockLevel,
    list_item_kind: Vec<ListFrame>,
    pending_links: VecDeque<Link>,
    next_link_index: usize,
    last_text: Option<String>,
}

impl View for Context {
    type V = CtxM;

    closed spec fn view(&self) -> CtxM {
        CtxM {
            out: self.out@,
            columns: self.columns,
            styles: self.active_styles@,
            emphasis: self.emphasis_level as nat,
            indent: self.indent_level as nat,
            block: self.block_level,
            lists: self.list_item_kind@,
            links: self.pending_links@.map_values(|l: Link| l@),
            next_index: self.next_link_index as nat,
            last_text: match self.last_text {
                Some(t) => Some(t@),
                None => None,
            },
        }
    }
}

impl Context {
    /// A fresh context for one rendering pass over at most `columns`-wide
    /// output.
    pub fn new(columns: u16) -> (r: Context)
        ensures
            r@ == sp_init(columns),
    {
        let r = Context {
            out: String::new(),
            columns,
            active_styles: Vec::new(),
            emphasis_level: 0,
            indent_level: 0,
            block_level: BlockLevel::Inline,
            list_item_kind: Vec::new(),
            pending_links: VecDeque::new(),
            next_link_index: 1,
            last_text: None,
        };
        proof {
            assert(r@ =~= sp_init(columns));
        }
        r
    }

    /// Append `piece` to the output `n` times.
    fn append_repeated(&mut self, piece: &str, n: usize)
        ensures
            final(self)@ == sp_write(old(self)@, repeated(piece@, n as nat)),
    {
        let ghost orig = self@;
        let mut i: usize = 0;
        proof {
            assert(orig.out + repeated(piece@, 0) =~= orig.out);
            assert(self@ =~= (CtxM { out: orig.out + repeated(piece@, 0), ..orig }));
        }
        while i < n
            invariant
                i <= n,
                self@ == (CtxM { out: orig.out + repeated(piece@, i as nat), ..orig }),
            decreases n - i,
        {
            self.out.append(piece);
            proof {
                assert((orig.out + repeated(piece@, i as nat)) + piece@ =~= orig.out + repeated(
                    piece@,
                    (i + 1) as nat,
                ));
                assert(self@ =~= (CtxM { out: orig.out + repeated(piece@, (i + 1) as nat), ..orig }));
            }
            i += 1;
        }
    }

    /// Append the decimal representation of `n` to the output.
    fn append_dec(&mut self, n: u128)
        ensures
            final(self)@ == sp_write(old(self)@, dec_rep(n as nat)),
        decreases n,
    {
        let ghost orig = self@;
        if n >= 10 {
            self.append_dec(n / 10);
        }
        let d: u128 = n % 10;
        if d == 0 {
            self.out.append("0");
        } else if d == 1 {
            self.out.append("1");
        } else if d == 2 {
            self.out.append("2");
        } else if d == 3 {
            self.out.append("3");
        } else if d == 4 {
            self.out.append("4");
        } else if d == 5 {
            self.out.append("5");
        } else if d == 6 {
            self.out.append("6");
        } else if d == 7 {
            self.out.append("7");
        } else if d == 8 {
            self.out.append("8");
        } else {
            self.out.append("9");
        }
        proof {
            if n >= 10 {
                assert((orig.out + dec_rep((n / 10) as nat)) + digit_str((n % 10) as nat)
                    =~= orig.out + dec_rep(n as nat));
            } else {
                assert(digit_str((n % 10) as nat) == digit_str(n as nat));
            }
            assert(self@ =~= sp_write(orig, dec_rep(n as nat)));
        }
    }

    /// Reissue every active directive on the output, in push order.
    fn flush_styles(&mut self)
        ensures
            final(self)@ == (CtxM {
                out: old(self)@.out + flush_styles_text(old(self)@.styles),
                ..old(self)@
            }),
    {
        let ghost orig = self@;
        let mut i: usize = 0;
        proof {
            assert(orig.styles.take(0) =~= Seq::<StyleDirective>::empty());
            assert(orig.out + flush_styles_text(orig.styles.take(0)) =~= orig.out);
            assert(self@ =~= (CtxM { out: orig.out + flush_styles_text(orig.styles.take(0)), ..orig }));
        }
        while i < self.active_styles.len()
            invariant
                i <= self.active_styles.len(),
                self.active_styles@ == orig.styles,
                self@ == (CtxM { out: orig.out + flush_styles_text(orig.styles.take(i as int)), ..orig }),
            decreases self.active_styles.len() - i,
        {
            let d = self.active_styles[i];
            let t = style_text(d);
            self.out.append(t.as_str());
            proof {
                assert(orig.styles.take(i + 1).drop_last() =~= orig.styles.take(i as int));
                assert(orig.styles.take(i + 1).last() == orig.styles[i as int]);
                assert((orig.out + flush_styles_text(orig.styles.take(i as int))) + token_of(
                    orig.styles[i as int],
                ) =~= orig.out + flush_styles_text(orig.styles.take(i + 1)));
                assert(self@ =~= (CtxM {
                    out: orig.out + flush_styles_text(orig.styles.take(i + 1)),
                    ..orig
                }));
            }
            i += 1;
        }
        proof {
            assert(orig.styles.take(orig.styles.len() as int) =~= orig.styles);
        }
    }

    /// Break the line: reset styling, start a new line, reissue every
    /// active directive.
    pub fn newline(&mut self)
        ensures
            final(self)@ == sp_newline(old(self)@),
    {
        let ghost orig = self@;
        let r = reset_text();
        self.out.append(r.as_str());
        self.out.append("\n");
        self.flush_styles();
        proof {
            assert(self@ =~= sp_newline(orig));
        }
    }

    /// Write the current indentation whitespace.
    pub fn indent(&mut self)
        ensures
            final(self)@ == sp_indent(old(self)@),
    {
        let n = self.indent_level;
        self.append_repeated(" ", n);
    }

    /// Break the line, then indent.
    pub fn newline_and_indent(&mut self)
        ensures
            final(self)@ == sp_newline_and_indent(old(self)@),
    {
        self.newline();
        self.indent();
    }

    /// Start a new block's inline run, separating it from the previous
    /// block when one is open.
    pub fn start_inline_text(&mut self)
        ensures
            final(self)@ == sp_start_inline(old(self)@),
    {
        let ghost orig = self@;
        match self.block_level {
            BlockLevel::Block => self.newline_and_indent(),
            BlockLevel::Inline => (),
        }
        self.block_level = BlockLevel::Inline;
        proof {
            assert(self@ =~= sp_start_inline(orig));
        }
    }

    /// End a block, closing an open inline run with a line break.
    pub fn end_inline_text_with_margin(&mut self)
        ensures
            final(self)@ == sp_end_inline(old(self)@),
    {
        let ghost orig = self@;
        match self.block_level {
            BlockLevel::Inline => self.newline(),
            BlockLevel::Block => (),
        }
        self.block_level = BlockLevel::Block;
        proof {
            assert(self@ =~= sp_end_inline(orig));
        }
    }

    /// Push a directive onto the style stack and write its token.
    pub fn enable_style(&mut self, d: StyleDirective)
        ensures
            final(self)@ == sp_push_style(old(self)@, d),
    {
        let ghost orig = self@;
        self.active_styles.push(d);
        let t = style_text(d);
        self.out.append(t.as_str());
        proof {
            assert(self@ =~= sp_push_style(orig, d));
        }
    }

    /// Pop the last directive, write the reset token, and reissue what
    /// remains.
    pub fn reset_last_style(&mut self)
        ensures
            final(self)@ == sp_reset_last_style(old(self)@),
    {
        let ghost orig = self@;
        self.active_styles.pop();
        let r = reset_text();
        self.out.append(r.as_str());
        self.flush_styles();
        proof {
            if orig.styles.len() > 0 {
                assert(orig.styles.subrange(0, orig.styles.len() - 1) =~= orig.styles.drop_last());
            }
            assert(self@ =~= sp_reset_last_style(orig));
        }
    }

    /// Enter one level of emphasis, italic at odd depth and upright at
    /// even depth.
    pub fn enable_emphasis(&mut self)
        requires
            old(self)@.emphasis + 1 <= usize::MAX,
        ensures
            final(self)@ == sp_enable_emphasis(old(self)@),
    {
        let ghost orig = self@;
        self.emphasis_level = self.emphasis_level + 1;
        if self.emphasis_level % 2 == 1 {
            self.enable_style(StyleDirective::Italic);
        } else {
            self.enable_style(StyleDirective::NoItalic);
        }
        proof {
            assert(self@ =~= sp_enable_emphasis(orig));
        }
    }

    /// Enqueue a deferred link and hand back the index it got.
    pub fn add_link(&mut self, destination: String, title: String) -> (index: usize)
        requires
            old(self)@.next_index + 1 <= usize::MAX,
        ensures
            final(self)@ == (CtxM {
                links: old(self)@.links.push(
                    crate::event::LinkM {
                        index: old(self)@.next_index,
                        destination: destination@,
                        title: title@,
                    },
                ),
                next_index: old(self)@.next_index + 1,
                ..old(self)@
            }),
            index as nat == old(self)@.next_index,
    {
        let ghost orig = self@;
        let index = self.next_link_index;
        self.next_link_index = self.next_link_index + 1;
        self.pending_links.push_back(Link { index, destination, title });
        proof {
            assert(self.pending_links@.map_values(|l: Link| l@) =~= orig.links.push(
                crate::event::LinkM {
                    index: orig.next_index,
                    destination: destination@,
                    title: title@,
                },
            ));
            assert(self@ =~= (CtxM {
                links: orig.links.push(
                    crate::event::LinkM {
                        index: orig.next_index,
                        destination: destination@,
                        title: title@,
                    },
                ),
                next_index: orig.next_index + 1,
                ..orig
            }));
        }
        index
    }

    /// Give up the context and hand back the output text it accumulated.
    pub fn into_output(self) -> (r: String)
        ensures
            r@ == self@.out,
    {
        self.out
    }

    /// Write every pending link as a reference line and empty the queue;
    /// a no-op when none are pending.
    pub fn write_pending_links(&mut self)
        ensures
            final(self)@ == sp_flush_links(old(self)@),
    {
        let ghost orig = self@;
        if self.pending_links.len() != 0 {
            self.newline();
            self.enable_style(StyleDirective::FgBlue);
            let ghost c1 = self@;
            while self.pending_links.len() != 0
                invariant
                    self@.columns == c1.columns,
                    self@.styles == c1.styles,
                    self@.emphasis == c1.emphasis,
                    self@.indent == c1.indent,
                    self@.block == c1.block,
                    self@.lists == c1.lists,
                    self@.next_index == c1.next_index,
                    self@.last_text == c1.last_text,
                    self@.out + links_text(self@.links, c1.styles) == c1.out + links_text(
                        c1.links,
                        c1.styles,
                    ),
                decreases self.pending_links@.len(),
            {
                let ghost pre = self@;
                let link = self.pending_links.pop_front().unwrap();
                proof {
                    assert(self.pending_links@.map_values(|l: Link| l@) =~= pre.links.drop_first());
                    assert(link@ == pre.links.first());
                }
                self.out.append("[");
                self.append_dec(link.index as u128);
                self.out.append("]: ");
                self.out.append(link.destination.as_str());
                self.out.append(" ");
                self.out.append(link.title.as_str());
                self.newline();
                proof {
                    assert(self@.out + links_text(self@.links, c1.styles) =~= pre.out + links_text(
                        pre.links,
                        c1.styles,
                    ));
                }
            }
            proof {
                assert(self@.links =~= Seq::<crate::event::LinkM>::empty());
                assert(self@.out =~= c1.out + links_text(c1.links, c1.styles));
                assert(self@ =~= (CtxM {
                    out: c1.out + links_text(orig.links, c1.styles),
                    links: Seq::empty(),
                    ..c1
                }));
            }
            self.reset_last_style();
            proof {
                assert(self@ =~= sp_flush_links(orig));
            }
        }
    }
}

/// Open a tag: mutate the context and write the tag's opening bytes, or
/// refuse an unsupported construct or a list item outside any list, leaving
/// the context untouched.
pub fn start_tag(ctx: &mut Context, tag: &Tag) -> (r: Result<(), RenderError>)
    requires
        old(ctx)@.emphasis + 1 <= usize::MAX,
        old(ctx)@.indent + 4 <= usize::MAX,
        old(ctx)@.lists.len() > 0 ==> (old(ctx)@.lists.last() matches ListFrame::Ordered(n) ==> n
            + 1 <= u128::MAX),
    ensures
        (match sp_start_tag(old(ctx)@, *tag) {
            Ok(m) => r is Ok && final(ctx)@ == m,
            Err(e) => r == Err::<(), RenderError>(e) && final(ctx)@ == old(ctx)@,
        }),
{
    let ghost orig = ctx@;
    match tag {
        Tag::Paragraph => {
            ctx.start_inline_text();
            Ok(())
        },
        Tag::Rule => {
            ctx.start_inline_text();
            ctx.enable_style(StyleDirective::FgLightBlack);
            let n = ctx.columns as usize;
            ctx.append_repeated("\u{2500}", n);
            Ok(())
        },
        Tag::Header(level) => {
            ctx.write_pending_links();
            ctx.start_inline_text();
            let n: usize = if *level >= 1 {
                (*level - 1) as usize
            } else {
                0
            };
            ctx.append_repeated("\u{2504}", n);
            ctx.enable_style(StyleDirective::Bold);
            ctx.enable_style(StyleDirective::FgBlue);
            Ok(())
        },
        Tag::BlockQuote => {
            ctx.indent_level = ctx.indent_level + 4;
            ctx.start_inline_text();
            ctx.enable_style(StyleDirective::FgLightBlack);
            ctx.enable_emphasis();
            Ok(())
        },
        Tag::CodeBlock => {
            ctx.start_inline_text();
            ctx.enable_style(StyleDirective::FgYellow);
            Ok(())
        },
        Tag::List(kind) => {
            let frame = match kind {
                Some(s) => ListFrame::Ordered(*s as u128),
                None => ListFrame::Unordered,
            };
            ctx.list_item_kind.push(frame);
            ctx.newline();
            Ok(())
        },
        Tag::Item => {
            if ctx.list_item_kind.len() == 0 {
                return Err(RenderError::ItemOutsideList);
            }
            ctx.indent();
            ctx.block_level = BlockLevel::Inline;
            let ghost c1 = ctx@;
            let frame = ctx.list_item_kind[ctx.list_item_kind.len() - 1];
            match frame {
                ListFrame::Unordered => {
                    ctx.out.append("\u{2022} ");
                    ctx.indent_level = ctx.indent_level + 2;
                    proof {
                        assert(ctx@ =~= sp_start_tag(orig, *tag)->Ok_0);
                    }
                },
                ListFrame::Ordered(n) => {
                    if n < 10 {
                        ctx.out.append(" ");
                    }
                    ctx.append_dec(n);
                    ctx.out.append(". ");
                    ctx.indent_level = ctx.indent_level + 4;
                    ctx.list_item_kind.pop();
                    ctx.list_item_kind.push(ListFrame::Ordered(n + 1));
                    proof {
                        assert(ctx@.lists =~= c1.lists.drop_last().push(
                            ListFrame::Ordered((n + 1) as u128),
                        ));
                        assert(ctx@ =~= sp_start_tag(orig, *tag)->Ok_0);
                    }
                },
            }
            Ok(())
        },
        Tag::Emphasis => {
            ctx.enable_emphasis();
            Ok(())
        },
        Tag::Strong => {
            ctx.enable_style(StyleDirective::Bold);
            Ok(())
        },
        Tag::InlineCode => {
            ctx.enable_style(StyleDirective::FgYellow);
            Ok(())
        },
        Tag::Link(_dest, _title) => Ok(()),
        Tag::Unsupported(k) => Err(RenderError::Unsupported(*k)),
    }
}

/// Close a tag: pop what its opening pushed, fix indentation, and for a
/// link decide between suppression and a deferred reference.
pub fn end_tag(ctx: &mut Context, tag: &Tag) -> (r: Result<(), RenderError>)
    requires
        old(ctx)@.next_index + 1 <= usize::MAX,
    ensures
        (match sp_end_tag(old(ctx)@, *tag) {
            Ok(m) => r is Ok && final(ctx)@ == m,
            Err(e) => r == Err::<(), RenderError>(e) && final(ctx)@ == old(ctx)@,
        }),
{
    let ghost orig = ctx@;
    match tag {
        Tag::Paragraph => {
            ctx.end_inline_text_with_margin();
            Ok(())
        },
        Tag::Rule => {
            ctx.active_styles.pop();
            proof {
                assert(ctx@ =~= (CtxM { styles: crate::model::pop_style(orig.styles), ..orig }));
            }
            ctx.end_inline_text_with_margin();
            Ok(())
        },
        Tag::Header(_level) => {
            ctx.active_styles.pop();
            ctx.active_styles.pop();
            proof {
                assert(ctx@ =~= (CtxM {
                    styles: crate::model::pop_style(crate::model::pop_style(orig.styles)),
                    ..orig
                }));
            }
            ctx.end_inline_text_with_margin();
            Ok(())
        },
        Tag::BlockQuote => {
            ctx.indent_level = if ctx.indent_level >= 4 {
                ctx.indent_level - 4
            } else {
                0
            };
            ctx.emphasis_level = if ctx.emphasis_level >= 1 {
                ctx.emphasis_level - 1
            } else {
                0
            };
            ctx.active_styles.pop();
            proof {
                assert(ctx@ =~= (CtxM {
                    indent: crate::model::sat_sub(orig.indent, 4),
                    emphasis: crate::model::sat_sub(orig.emphasis, 1),
                    styles: crate::model::pop_style(orig.styles),
                    ..orig
                }));
            }
            ctx.reset_last_style();
            ctx.end_inline_text_with_margin();
            Ok(())
        },
        Tag::CodeBlock => {
            ctx.reset_last_style();
            ctx.end_inline_text_with_margin();
            Ok(())
        },
        Tag::List(_kind) => {
            ctx.list_item_kind.pop();
            proof {
                if orig.lists.len() > 0 {
                    assert(ctx@.lists =~= orig.lists.drop_last());
                }
                assert(ctx@ =~= (CtxM {
                    lists: if orig.lists.len() == 0 {
                        orig.lists
                    } else {
                        orig.lists.drop_last()
                    },
                    ..orig
                }));
            }
            ctx.end_inline_text_with_margin();
            Ok(())
        },
        Tag::Item => {
            if ctx.list_item_kind.len() > 0 {
                let frame = ctx.list_item_kind[ctx.list_item_kind.len() - 1];
                match frame {
                    ListFrame::Ordered(_n) => {
                        ctx.indent_level = if ctx.indent_level >= 4 {
                            ctx.indent_level - 4
                        } else {
                            0
                        };
                    },
                    ListFrame::Unordered => {
                        ctx.indent_level = if ctx.indent_level >= 2 {
                            ctx.indent_level - 2
                        } else {
                            0
                        };
                    },
                }
            }
            ctx.end_inline_text_with_margin();
            Ok(())
        },
        Tag::Emphasis => {
            ctx.reset_last_style();
            ctx.emphasis_level = if ctx.emphasis_level >= 1 {
                ctx.emphasis_level - 1
            } else {
                0
            };
            proof {
                assert(ctx@ =~= sp_end_tag(orig, *tag)->Ok_0);
            }
            Ok(())
        },
        Tag::Strong => {
            ctx.reset_last_style();
            Ok(())
        },
        Tag::InlineCode => {
            ctx.reset_last_style();
            Ok(())
        },
        Tag::Link(dest, title) => {
            let suppressed = match &ctx.last_text {
                Some(t) => *t == *dest,
                None => false,
            };
            if suppressed {
                Ok(())
            } else {
                let index = ctx.add_link(dest.clone(), title.clone());
                let ghost c1 = ctx@;
                ctx.enable_style(StyleDirective::FgBlue);
                ctx.out.append("[");
                ctx.append_dec(index as u128);
                ctx.out.append("]");
                proof {
                    assert(ctx@ =~= sp_write(
                        sp_push_style(c1, StyleDirective::FgBlue),
                        "["@ + dec_rep(orig.next_index) + "]"@,
                    ));
                }
                ctx.reset_last_style();
                proof {
                    assert(ctx@ =~= sp_end_link(orig, dest@, title@));
                }
                Ok(())
            }
        },
        Tag::Unsupported(k) => Err(RenderError::Unsupported(*k)),
    }
}

/// Route one event: literal text is written verbatim and remembered, both
/// break kinds break the line and indent, tags go to the tag handlers, and
/// unsupported constructs fail.
pub fn write_event(ctx: &mut Context, e: &Event) -> (r: Result<(), RenderError>)
    requires
        old(ctx)@.emphasis + 1 <= usize::MAX,
        old(ctx)@.indent + 4 <= usize::MAX,
        old(ctx)@.next_index + 1 <= usize::MAX,
        old(ctx)@.lists.len() > 0 ==> (old(ctx)@.lists.last() matches ListFrame::Ordered(n) ==> n
            + 1 <= u128::MAX),
    ensures
        (match sp_step(old(ctx)@, *e) {
            Ok(m) => r is Ok && final(ctx)@ == m,
            Err(er) => r == Err::<(), RenderError>(er) && final(ctx)@ == old(ctx)@,
        }),
{
    let ghost orig = ctx@;
    match e {
        Event::Text(t) => {
            ctx.out.append(t.as_str());
            ctx.last_text = Some(t.clone());
            proof {
                assert(ctx@ =~= (CtxM { out: orig.out + t@, last_text: Some(t@), ..orig }));
            }
            Ok(())
        },
        Event::SoftBreak => {
            ctx.newline_and_indent();
            Ok(())
        },
        Event::HardBreak => {
            ctx.newline_and_indent();
            Ok(())
        },
        Event::Start(tag) => start_tag(ctx, tag),
        Event::End(tag) => end_tag(ctx, tag),
        Event::Unsupported(k) => Err(RenderError::Unsupported(*k)),
    }
}

/// Render a whole event stream: process each event in arrival order, then
/// flush the remaining deferred links once, and hand back the full output
/// text — or the error of the first event that failed, with no output.
///
/// `columns` only sizes horizontal rules; it does not wrap lines. The
/// length bound states what a vector of events already satisfies on any
/// machine that could hold it.
pub fn push_tty(columns: u16, events: &Vec<Event>) -> (r: Result<String, RenderError>)
    requires
        16 * events@.len() <= usize::MAX,
    ensures
        (match spec_render(events@, columns) {
            Ok(o) => r is Ok && r->Ok_0@ == o,
            Err(e) => r == Err::<String, RenderError>(e),
        }),
{
    let mut ctx = Context::new(columns);
    let ghost es = events@;
    let mut i: usize = 0;
    while i < events.len()
        invariant
            i <= es.len(),
            es == events@,
            16 * es.len() <= usize::MAX,
            ctx@.columns == columns,
            sp_run(sp_init(columns), es.take(i as int)) == Ok::<CtxM, RenderError>(ctx@),
            wf_at(ctx@, i as int),
        decreases es.len() - i,
    {
        proof {
            if ctx@.lists.len() > 0 {
                assert(match ctx@.lists[ctx@.lists.len() - 1] {
                    ListFrame::Ordered(n) => n <= u64::MAX + i,
                    ListFrame::Unordered => true,
                });
            }
        }
        let ghost pre = ctx@;
        let r = write_event(&mut ctx, &events[i]);
        proof {
            assert(es.take(i + 1).drop_last() =~= es.take(i as int));
            assert(es.take(i + 1).last() == es[i as int]);
        }
        match r {
            Ok(_u) => {
                proof {
                    lemma_step_wf(pre, es[i as int], i as int);
                }
                i = i + 1;
            },
            Err(e) => {
                proof {
                    lemma_run_err_persists(sp_init(columns), es, i + 1);
                }
                return Err(e);
            },
        }
    }
    proof {
        assert(es.take(es.len() as int) =~= es);
    }
    ctx.write_pending_links();
    Ok(ctx.into_output())
}

} // verus!
