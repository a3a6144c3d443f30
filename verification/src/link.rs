//! Link records, and the two collaborators that a parse consults: the
//! document that resolves hrefs, and the walker that fingerprints paragraphs.

use vstd::prelude::*;

verus! {

/// Fingerprint of the text of one paragraph.
#[derive(Clone, Copy, Debug, PartialEq, Eq, Hash)]
pub struct Paragraph {
    pub hash: u64,
}

/// A reference from the document to some target.
#[derive(Clone, Copy, Debug, PartialEq, Eq)]
pub struct UsedLink<'l> {
    /// The resolved target.
    pub href: &'l str,
    /// The document that holds the reference.
    pub path: &'l str,
    /// The paragraph around the reference, known once the paragraph closes.
    pub paragraph: Option<Paragraph>,
}

/// A target that the document declares.
#[derive(Clone, Copy, Debug, PartialEq, Eq)]
pub struct DefinedLink<'l> {
    /// The resolved reference to the document itself, fragment included.
    pub href: &'l str,
}

/// One record of the extractor's output.
#[derive(Clone, Copy, Debug, PartialEq, Eq)]
pub enum Link<'l> {
    Uses(UsedLink<'l>),
    Defines(DefinedLink<'l>),
}

/// What a link record says, apart from where its strings live.
pub enum LinkView {
    Uses { href: Seq<char>, path: Seq<char>, paragraph: Option<Paragraph> },
    Defines { href: Seq<char> },
}

impl<'l> View for Link<'l> {
    type V = LinkView;

    open spec fn view(&self) -> LinkView {
        match *self {
            Link::Uses(used) => LinkView::Uses {
                href: used.href@,
                path: used.path@,
                paragraph: used.paragraph,
            },
            Link::Defines(defined) => LinkView::Defines { href: defined.href@ },
        }
    }
}

impl LinkView {
    /// The same record with the given paragraph, if it is a used link.
    pub open spec fn stamped(self, paragraph: Option<Paragraph>) -> LinkView {
        match self {
            LinkView::Uses { href, path, paragraph: _ } => LinkView::Uses { href, path, paragraph },
            LinkView::Defines { href } => self,
        }
    }
}

/// The document that is being parsed: its identity, and how a raw href that
/// occurs in it is resolved. The extractor never looks inside; it promises
/// only what it hands to `join`.
pub trait Document {
    /// The document's identity.
    fn path(&self) -> &str;

    /// Resolves a raw href into the arena. `check_anchors` says whether a
    /// `#fragment` is to survive.
    fn join<'b>(&self, arena: &'b bumpalo::Bump, check_anchors: bool, raw: &str) -> &'b str;
}

/// Accumulates the text of a paragraph and fingerprints it.
pub trait ParagraphWalker {
    /// Feeds character data of the current paragraph.
    fn update(&mut self, text: &[u8]);

    /// Ends the paragraph: returns its fingerprint, if it has one, and
    /// starts afresh.
    fn finish_paragraph(&mut self) -> Option<Paragraph>;
}

/// `href` is what the document's `join` gave for the arena, the flag and
/// `raw`.
pub open spec fn joined<D: Document>(
    doc: &D,
    arena: &bumpalo::Bump,
    check_anchors: bool,
    raw: Seq<char>,
    href: Seq<char>,
) -> bool {
    exists|r: &str, h: &str|
        r@ == raw && h@ == href && call_ensures(D::join, (doc, arena, check_anchors, r), h)
}

/// `path` is what the document's `path` gave.
pub open spec fn located<D: Document>(doc: &D, path: Seq<char>) -> bool {
    exists|p: &str| p@ == path && call_ensures(D::path, (doc,), p)
}

} // verus!
