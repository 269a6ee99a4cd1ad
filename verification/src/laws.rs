//! The laws the renderer obeys, proved of the model in [`crate::model`]
//! that the executable renderer is proved equal to.

use vstd::prelude::*;
use crate::event::{Event, LinkM, ListFrame, RenderError, StyleDirective, Tag};
use crate::model::{
    flush_styles_text, lemma_run_concat, lemma_run_single, lemma_run_wf, links_indexed,
    pop_style, sp_end_tag, sp_flush_links, sp_init, sp_newline, sp_run, sp_start_tag, sp_step,
    CtxM,
};
use crate::style::{reset_token, token_of};
use crate::text::{dec_rep, ordered_marker, repeated};

verus! {

/// Whether two list frames are of the same kind, ordered or unordered.
pub open spec fn same_frame_kind(a: ListFrame, b: ListFrame) -> bool {
    a is Unordered <==> b is Unordered
}

/// Law: after a balanced end tag the active style stack is exactly what it
/// was before the matching start tag.
///
/// `mid` is any context the tag's content left behind; the one hypothesis
/// is that the content itself left the style stack as the start tag made
/// it, which is this law again for every construct nested inside.
pub proof fn lemma_style_stack_balance(c: CtxM, mid: CtxM, tag: Tag)
    requires
        sp_start_tag(c, tag) is Ok,
        mid.styles == sp_start_tag(c, tag)->Ok_0.styles,
        sp_end_tag(mid, tag) is Ok,
    ensures
        sp_end_tag(mid, tag)->Ok_0.styles == c.styles,
{
    match tag {
        Tag::Rule => {
            assert(c.styles.push(StyleDirective::FgLightBlack).drop_last() =~= c.styles);
        },
        Tag::Header(_level) => {
            let s1 = sp_start_tag(c, tag)->Ok_0.styles;
            assert(s1.drop_last() =~= c.styles.push(StyleDirective::Bold));
            assert(s1.drop_last().drop_last() =~= c.styles);
        },
        Tag::BlockQuote => {
            let s1 = sp_start_tag(c, tag)->Ok_0.styles;
            assert(s1.drop_last() =~= c.styles.push(StyleDirective::FgLightBlack));
            assert(s1.drop_last().drop_last() =~= c.styles);
        },
        Tag::CodeBlock => {
            assert(c.styles.push(StyleDirective::FgYellow).drop_last() =~= c.styles);
        },
        Tag::Emphasis => {
            assert(mid.styles.drop_last() =~= c.styles);
        },
        Tag::Strong => {
            assert(c.styles.push(StyleDirective::Bold).drop_last() =~= c.styles);
        },
        Tag::InlineCode => {
            assert(c.styles.push(StyleDirective::FgYellow).drop_last() =~= c.styles);
        },
        Tag::Link(dest, _title) => {
            if mid.last_text != Some(dest@) {
                assert(mid.styles.push(StyleDirective::FgBlue).drop_last() =~= mid.styles);
            }
        },
        _ => {},
    }
}

/// Law: the bytes a line break writes are the reset token, a newline, then
/// the token of every directive on the style stack in push order; the
/// stack itself does not change.
pub proof fn lemma_reflush(c: CtxM)
    ensures
        sp_newline(c).out == c.out + (reset_token() + "\n"@ + flush_styles_text(c.styles)),
        sp_newline(c).styles == c.styles,
{
}

/// Law: both line-break events write a line break followed by the current
/// indentation, and touch nothing else.
pub proof fn lemma_break_event(c: CtxM, e: Event)
    requires
        e is SoftBreak || e is HardBreak,
    ensures
        sp_step(c, e) is Ok,
        sp_step(c, e)->Ok_0 == (CtxM {
            out: c.out + (reset_token() + "\n"@ + flush_styles_text(c.styles)) + repeated(
                " "@,
                c.indent,
            ),
            ..c
        }),
{
    assert(sp_step(c, e)->Ok_0 =~= (CtxM {
        out: c.out + (reset_token() + "\n"@ + flush_styles_text(c.styles)) + repeated(
            " "@,
            c.indent,
        ),
        ..c
    }));
}

/// Law: closing a link whose visible text equals its destination changes
/// nothing — no bracketed index, no queued entry, no index consumed;
/// closing one whose visible text differs writes exactly one bracketed
/// index, queues exactly one entry with the next index, and advances the
/// index by one.
pub proof fn lemma_autolink_suppression(c: CtxM, dest: String, title: String)
    ensures
        c.last_text == Some(dest@) ==> sp_end_tag(c, Tag::Link(dest, title)) == Ok::<
            CtxM,
            RenderError,
        >(c),
        c.last_text != Some(dest@) ==> ({
            let c2 = sp_end_tag(c, Tag::Link(dest, title))->Ok_0;
            &&& c2.links == c.links.push(
                LinkM { index: c.next_index, destination: dest@, title: title@ },
            )
            &&& c2.next_index == c.next_index + 1
            &&& c2.out == c.out + token_of(StyleDirective::FgBlue) + ("["@ + dec_rep(
                c.next_index,
            ) + "]"@) + reset_token() + flush_styles_text(c.styles)
            &&& c2.styles == c.styles
        }),
{
    if c.last_text != Some(dest@) {
        assert(pop_style(c.styles.push(StyleDirective::FgBlue)) =~= c.styles);
        let c2 = sp_end_tag(c, Tag::Link(dest, title))->Ok_0;
        assert(c2.out =~= c.out + token_of(StyleDirective::FgBlue) + ("["@ + dec_rep(
            c.next_index,
        ) + "]"@) + reset_token() + flush_styles_text(c.styles));
    }
}

/// Law: after any successful run the pending links carry consecutive
/// indices ending just below the next index, every index is at least one,
/// and the next index never exceeds one plus the number of events — so
/// indices start at one and rise by exactly one per non-suppressed link.
pub proof fn lemma_link_indices(es: Seq<Event>, columns: u16)
    requires
        sp_run(sp_init(columns), es) is Ok,
    ensures
        links_indexed(sp_run(sp_init(columns), es)->Ok_0),
        1 <= sp_run(sp_init(columns), es)->Ok_0.next_index,
        sp_run(sp_init(columns), es)->Ok_0.next_index <= es.len() + 1,
{
    lemma_run_wf(sp_init(columns), es, 0);
}

/// Law: a flush empties the queue, a flush of an empty queue writes
/// nothing, and so a second flush right after a first changes nothing —
/// the flush before each header and the one at stream end are safe in any
/// combination.
pub proof fn lemma_flush_idempotent(c: CtxM)
    ensures
        c.links.len() == 0 ==> sp_flush_links(c) == c,
        sp_flush_links(c).links.len() == 0,
        sp_flush_links(sp_flush_links(c)) == sp_flush_links(c),
{
}

/// Law: an item of an ordered list writes the indentation and the marker
/// of the top frame's number, and advances only that frame to the next
/// number — every sibling and outer list keeps its own numbering.
pub proof fn lemma_ordered_numbering(c: CtxM, n: u128)
    requires
        c.lists.len() > 0,
        c.lists.last() == ListFrame::Ordered(n),
    ensures
        sp_start_tag(c, Tag::Item) is Ok,
        ({
            let c2 = sp_start_tag(c, Tag::Item)->Ok_0;
            &&& c2.out == c.out + repeated(" "@, c.indent) + ordered_marker(n as nat)
            &&& c2.lists == c.lists.update(
                c.lists.len() - 1,
                ListFrame::Ordered(((n + 1) as u128)),
            )
            &&& forall|j: int| 0 <= j < c.lists.len() - 1 ==> c2.lists[j] == c.lists[j]
        }),
{
    let c2 = sp_start_tag(c, Tag::Item)->Ok_0;
    assert(c2.lists =~= c.lists.update(c.lists.len() - 1, ListFrame::Ordered(((n + 1) as u128))));
}

/// Law: indentation moves only in matched pairs — after closing any block
/// construct it is exactly what it was before opening it.
///
/// `mid` is any context the construct's content left behind; the
/// hypotheses are that the content left the indentation as the start tag
/// made it and, for a list item, kept a top frame of the same kind — which
/// is this law again for every construct nested inside.
pub proof fn lemma_indent_balance(c: CtxM, mid: CtxM, tag: Tag)
    requires
        sp_start_tag(c, tag) is Ok,
        mid.indent == sp_start_tag(c, tag)->Ok_0.indent,
        tag is Item ==> mid.lists.len() > 0 && same_frame_kind(mid.lists.last(), c.lists.last()),
        sp_end_tag(mid, tag) is Ok,
    ensures
        sp_end_tag(mid, tag)->Ok_0.indent == c.indent,
{
}

/// One well-nested construct: a leaf event, or a tag pair wrapped around
/// well-nested content.
pub enum DocTree {
    Leaf(Event),
    Node(Tag, Seq<DocTree>),
}

/// The event stream of one construct.
pub open spec fn flatten(d: DocTree) -> Seq<Event>
    decreases d, 0int,
{
    match d {
        DocTree::Leaf(e) => seq![e],
        DocTree::Node(t, kids) => seq![Event::Start(t)] + flatten_from(kids, 0) + seq![
            Event::End(t),
        ],
    }
}

/// The event stream of the constructs of `ds` from position `i` on.
pub open spec fn flatten_from(ds: Seq<DocTree>, i: int) -> Seq<Event>
    decreases ds, ds.len() - i,
{
    if i < 0 || i >= ds.len() {
        Seq::empty()
    } else {
        flatten(ds[i]) + flatten_from(ds, i + 1)
    }
}

/// A construct is well formed when its leaves are bare events, never a
/// stray start or end tag.
pub open spec fn doc_wf(d: DocTree) -> bool
    decreases d, 0int,
{
    match d {
        DocTree::Leaf(e) => !(e is Start) && !(e is End),
        DocTree::Node(_t, kids) => docs_wf(kids, 0),
    }
}

/// Every construct of `ds` from position `i` on is well formed.
pub open spec fn docs_wf(ds: Seq<DocTree>, i: int) -> bool
    decreases ds, ds.len() - i,
{
    i < 0 || i >= ds.len() || (doc_wf(ds[i]) && docs_wf(ds, i + 1))
}

/// The kind, ordered or unordered, of each open list frame.
pub open spec fn frame_kinds(ls: Seq<ListFrame>) -> Seq<bool> {
    ls.map_values(|f: ListFrame| f is Unordered)
}

/// What a balanced construct leaves untouched: the style stack, the
/// indentation, and the kinds of the open list frames.
pub open spec fn restores(c: CtxM, c2: CtxM) -> bool {
    &&& c2.styles == c.styles
    &&& c2.indent == c.indent
    &&& frame_kinds(c2.lists) == frame_kinds(c.lists)
}

/// An end tag undoes its start tag, provided the content in between
/// restored what the start tag left behind.
proof fn lemma_end_restores(c: CtxM, cm: CtxM, tag: Tag)
    requires
        sp_start_tag(c, tag) is Ok,
        restores(sp_start_tag(c, tag)->Ok_0, cm),
        sp_end_tag(cm, tag) is Ok,
    ensures
        restores(c, sp_end_tag(cm, tag)->Ok_0),
{
    let c1 = sp_start_tag(c, tag)->Ok_0;
    let c2 = sp_end_tag(cm, tag)->Ok_0;
    lemma_style_stack_balance(c, cm, tag);
    if tag is Item {
        assert(frame_kinds(cm.lists).len() == frame_kinds(c1.lists).len());
        assert(frame_kinds(cm.lists)[cm.lists.len() - 1] == frame_kinds(
            c1.lists,
        )[c1.lists.len() - 1]);
        assert(same_frame_kind(cm.lists.last(), c.lists.last()));
    }
    lemma_indent_balance(c, cm, tag);
    match tag {
        Tag::List(_kind) => {
            let n = c.lists.len() as int;
            assert(frame_kinds(c1.lists).len() == n + 1);
            assert(cm.lists.len() == n + 1);
            assert(c2.lists =~= cm.lists.drop_last());
            assert forall|j: int| 0 <= j < n implies frame_kinds(c2.lists)[j] == frame_kinds(
                c.lists,
            )[j] by {
                assert(c2.lists[j] == cm.lists[j]);
                assert(frame_kinds(c2.lists)[j] == (c2.lists[j] is Unordered));
                assert(frame_kinds(cm.lists)[j] == (cm.lists[j] is Unordered));
                assert(frame_kinds(cm.lists)[j] == frame_kinds(c1.lists)[j]);
                assert(frame_kinds(c1.lists)[j] == (c1.lists[j] is Unordered));
                assert(c1.lists[j] == c.lists[j]);
                assert(frame_kinds(c.lists)[j] == (c.lists[j] is Unordered));
            }
            assert(frame_kinds(c2.lists) =~= frame_kinds(c.lists));
        },
        Tag::Item => {
            if c.lists.last() is Ordered {
                assert(frame_kinds(c1.lists) =~= frame_kinds(c.lists));
            }
            assert(frame_kinds(c2.lists) =~= frame_kinds(c.lists));
        },
        _ => {
            assert(frame_kinds(c2.lists) =~= frame_kinds(c.lists));
        },
    }
}

/// Law (whole-construct form of the two balance laws): a successful render
/// of any well-nested construct restores the style stack, the indentation,
/// and the kinds of the open list frames to what they were before it.
pub proof fn lemma_balanced_construct(c: CtxM, d: DocTree)
    requires
        doc_wf(d),
        sp_run(c, flatten(d)) is Ok,
    ensures
        restores(c, sp_run(c, flatten(d))->Ok_0),
    decreases d, 0int,
{
    match d {
        DocTree::Leaf(e) => {
            lemma_run_single(c, e);
        },
        DocTree::Node(t, kids) => {
            let a = seq![Event::Start(t)];
            let mid = flatten_from(kids, 0);
            let z = seq![Event::End(t)];
            lemma_run_concat(c, a + mid, z);
            lemma_run_concat(c, a, mid);
            lemma_run_single(c, Event::Start(t));
            let c1 = sp_start_tag(c, t)->Ok_0;
            lemma_balanced_docs(c1, kids, 0);
            let cm = sp_run(c1, mid)->Ok_0;
            lemma_run_single(cm, Event::End(t));
            lemma_end_restores(c, cm, t);
        },
    }
}

/// The law above, over a row of adjacent well-nested constructs.
pub proof fn lemma_balanced_docs(c: CtxM, ds: Seq<DocTree>, i: int)
    requires
        0 <= i <= ds.len(),
        docs_wf(ds, i),
        sp_run(c, flatten_from(ds, i)) is Ok,
    ensures
        restores(c, sp_run(c, flatten_from(ds, i))->Ok_0),
    decreases ds, ds.len() - i,
{
    if i < ds.len() {
        lemma_run_concat(c, flatten(ds[i]), flatten_from(ds, i + 1));
        lemma_balanced_construct(c, ds[i]);
        let c1 = sp_run(c, flatten(ds[i]))->Ok_0;
        lemma_balanced_docs(c1, ds, i + 1);
    }
}

} // verus!
