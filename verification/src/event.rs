//! The structural event vocabulary the renderer consumes, and the small
//! value types the rendering state is made of.

use vstd::prelude::*;

verus! {

/// A construct that the renderer refuses to render.
#[derive(Clone, Copy, Debug, PartialEq, Eq, Structural)]
pub enum UnsupportedKind {
    HtmlBlock,
    InlineHtml,
    FootnoteReference,
    FootnoteDefinition,
    Table,
    TableHead,
    TableRow,
    TableCell,
    Image,
}

/// Why a render call failed.
///
/// Input/output failure is not represented here: the renderer computes the
/// full output text and never touches a device itself.
#[derive(Clone, Copy, Debug, PartialEq, Eq, Structural)]
pub enum RenderError {
    /// The stream held a construct the renderer does not support.
    Unsupported(UnsupportedKind),
    /// A list item was opened while no list was open.
    ItemOutsideList,
}

/// The diagnostic line owed for each error: it names the unsupported
/// construct, or the structural violation.
pub open spec fn message_of(e: RenderError) -> Seq<char> {
    match e {
        RenderError::Unsupported(UnsupportedKind::HtmlBlock) => "HTML blocks are not supported"@,
        RenderError::Unsupported(UnsupportedKind::InlineHtml) => "inline HTML is not supported"@,
        RenderError::Unsupported(UnsupportedKind::FootnoteReference) => "footnotes are not supported"@,
        RenderError::Unsupported(UnsupportedKind::FootnoteDefinition) => "footnotes are not supported"@,
        RenderError::Unsupported(UnsupportedKind::Table) => "tables are not supported"@,
        RenderError::Unsupported(UnsupportedKind::TableHead) => "tables are not supported"@,
        RenderError::Unsupported(UnsupportedKind::TableRow) => "tables are not supported"@,
        RenderError::Unsupported(UnsupportedKind::TableCell) => "tables are not supported"@,
        RenderError::Unsupported(UnsupportedKind::Image) => "images are not supported"@,
        RenderError::ItemOutsideList => "list item without an open list"@,
    }
}

impl RenderError {
    /// A diagnostic line naming the construct or violation.
    pub fn message(&self) -> (r: &'static str)
        ensures
            r@ == message_of(*self),
    {
        match self {
            RenderError::Unsupported(UnsupportedKind::HtmlBlock) => "HTML blocks are not supported",
            RenderError::Unsupported(UnsupportedKind::InlineHtml) => "inline HTML is not supported",
            RenderError::Unsupported(UnsupportedKind::FootnoteReference) => "footnotes are not supported",
            RenderError::Unsupported(UnsupportedKind::FootnoteDefinition) => "footnotes are not supported",
            RenderError::Unsupported(UnsupportedKind::Table) => "tables are not supported",
            RenderError::Unsupported(UnsupportedKind::TableHead) => "tables are not supported",
            RenderError::Unsupported(UnsupportedKind::TableRow) => "tables are not supported",
            RenderError::Unsupported(UnsupportedKind::TableCell) => "tables are not supported",
            RenderError::Unsupported(UnsupportedKind::Image) => "images are not supported",
            RenderError::ItemOutsideList => "list item without an open list",
        }
    }
}

/// The structural construct a start/end event pair delimits.
#[derive(Clone, Debug)]
pub enum Tag {
    Paragraph,
    Rule,
    /// A header with its level (one-based).
    Header(u32),
    BlockQuote,
    CodeBlock,
    /// A list; `Some(s)` is an ordered list whose first item is numbered `s`.
    List(Option<u64>),
    Item,
    Emphasis,
    Strong,
    InlineCode,
    /// A link with its destination and title.
    Link(String, String),
    /// A construct the renderer refuses.
    Unsupported(UnsupportedKind),
}

/// One unit of the structural input stream.
#[derive(Clone, Debug)]
pub enum Event {
    /// A literal text run.
    Text(String),
    SoftBreak,
    HardBreak,
    Start(Tag),
    End(Tag),
    /// A construct the renderer refuses that is not a tag pair.
    Unsupported(UnsupportedKind),
}

/// A symbolic style request; the terminal collaborator owns its byte form.
#[derive(Clone, Copy, Debug, PartialEq, Eq, Structural)]
pub enum StyleDirective {
    Bold,
    Italic,
    NoItalic,
    FgBlue,
    FgYellow,
    FgLightBlack,
}

/// One open list: unordered, or ordered with the number of its next item.
///
/// The counter is wider than the start value a `Tag::List` can carry, so
/// advancing it once per item of a finite stream cannot wrap.
#[derive(Clone, Copy, Debug, PartialEq, Eq, Structural)]
pub enum ListFrame {
    Unordered,
    Ordered(u128),
}

/// Whether the next content must begin on its own line.
#[derive(Clone, Copy, Debug, PartialEq, Eq, Structural)]
pub enum BlockLevel {
    Block,
    Inline,
}

/// A deferred link reference waiting to be written out.
#[derive(Clone, Debug)]
pub struct Link {
    /// The one-based index shown inline in bracketed form.
    pub index: usize,
    /// The link destination.
    pub destination: String,
    /// The link title.
    pub title: String,
}

/// The mathematical value of a [`Link`].
pub struct LinkM {
    pub index: nat,
    pub destination: Seq<char>,
    pub title: Seq<char>,
}

impl View for Link {
    type V = LinkM;

    open spec fn view(&self) -> LinkM {
        LinkM {
            index: self.index as nat,
            destination: self.destination@,
            title: self.title@,
        }
    }
}

} // verus!
