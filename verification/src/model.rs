//! The extractor as a state machine over plain values: what each push of
//! the tokenizer does to the scratch strings, the paragraph state and the
//! list of links.

use vstd::prelude::*;
use vstd::utf8::*;
use crate::buffers::BuffersView;
use crate::link::{joined, located, Document, LinkView, Paragraph};
use crate::scheme::bad_schema;
use crate::tags::{classify, is_paragraph_name, AttributeKind};
use crate::text::{srcset_urls, trimmed};

verus! {

/// One href that is handed to the document to be resolved.
pub struct Request {
    /// The record that comes of it defines an anchor; else it uses a link.
    pub defines: bool,
    /// The text handed to `join`.
    pub raw: Seq<char>,
}

/// The requests for a list of candidate URLs: one for each that the scheme
/// screen lets pass, in order.
pub open spec fn used_requests(urls: Seq<Seq<char>>) -> Seq<Request>
    decreases urls.len(),
{
    if urls.len() == 0 {
        Seq::empty()
    } else {
        let before = used_requests(urls.drop_last());
        if bad_schema(encode_utf8(urls.last())) {
            before
        } else {
            before.push(Request { defines: false, raw: urls.last() })
        }
    }
}

/// The request for an anchor: the trimmed value behind a `#`, and only where
/// anchors are checked.
pub open spec fn anchor_requests(value: Seq<char>, check_anchors: bool) -> Seq<Request> {
    if check_anchors {
        seq![Request { defines: true, raw: seq!['#'] + trimmed(value) }]
    } else {
        Seq::empty()
    }
}

/// The requests that a finished attribute gives rise to.
pub open spec fn attribute_requests(
    tag: Seq<char>,
    name: Seq<char>,
    value: Seq<char>,
    check_anchors: bool,
) -> Seq<Request> {
    match classify(tag, name) {
        AttributeKind::UsedLink => used_requests(seq![trimmed(value)]),
        AttributeKind::UsedLinkSrcset => used_requests(srcset_urls(trimmed(value))),
        AttributeKind::AnchorDef => anchor_requests(value, check_anchors),
        AttributeKind::Other => Seq::empty(),
    }
}

/// `record` is the link that comes of `request`: of the right variant, with
/// the href that the document gave for the request's text, and, for a used
/// link, with the document's path and no paragraph yet.
pub open spec fn answers<D: Document>(
    doc: &D,
    arena: &bumpalo::Bump,
    check_anchors: bool,
    request: Request,
    record: LinkView,
) -> bool {
    match record {
        LinkView::Uses { href, path, paragraph } => {
            &&& !request.defines
            &&& joined(doc, arena, check_anchors, request.raw, href)
            &&& located(doc, path)
            &&& paragraph is None
        },
        LinkView::Defines { href } => {
            &&& request.defines
            &&& joined(doc, arena, check_anchors, request.raw, href)
        },
    }
}

/// `records` are the links that come of `requests`, one for one and in order.
pub open spec fn answers_all<D: Document>(
    doc: &D,
    arena: &bumpalo::Bump,
    check_anchors: bool,
    requests: Seq<Request>,
    records: Seq<LinkView>,
) -> bool {
    &&& records.len() == requests.len()
    &&& forall|i: int|
        0 <= i < requests.len() ==> answers(
            doc,
            arena,
            check_anchors,
            requests[i],
            #[trigger] records[i],
        )
}

/// The links with `paragraph` set on every used link from position `from` on.
pub open spec fn stamped_from(
    links: Seq<LinkView>,
    from: int,
    paragraph: Option<Paragraph>,
) -> Seq<LinkView> {
    Seq::new(
        links.len(),
        |i: int|
            if i >= from {
                links[i].stamped(paragraph)
            } else {
                links[i]
            },
    )
}

/// The state of a parse, apart from its two collaborators.
pub struct EmitterView {
    pub buffers: BuffersView,
    pub in_paragraph: bool,
    pub last_paragraph_i: int,
    pub get_paragraphs: bool,
    pub current_tag_is_closing: bool,
    pub check_anchors: bool,
    pub links: Seq<LinkView>,
}

impl EmitterView {
    /// The paragraph mark lies within the list of links.
    pub open spec fn wf(self) -> bool {
        0 <= self.last_paragraph_i <= self.links.len()
    }

    /// The tag that is being assembled bounds a paragraph.
    pub open spec fn at_paragraph_tag(self) -> bool {
        is_paragraph_name(self.buffers.current_tag_name)
    }

    /// A start tag begins.
    pub open spec fn start_tag_begun(self) -> EmitterView {
        EmitterView {
            buffers: BuffersView { current_tag_name: Seq::empty(), ..self.buffers },
            current_tag_is_closing: false,
            ..self
        }
    }

    /// An end tag begins.
    pub open spec fn end_tag_begun(self) -> EmitterView {
        EmitterView {
            buffers: BuffersView { current_tag_name: Seq::empty(), ..self.buffers },
            current_tag_is_closing: true,
            ..self
        }
    }

    /// A piece of the tag's name arrives.
    pub open spec fn tag_name_pushed(self, s: Seq<char>) -> EmitterView {
        EmitterView {
            buffers: BuffersView {
                current_tag_name: self.buffers.current_tag_name + s,
                ..self.buffers
            },
            ..self
        }
    }

    /// A piece of the attribute's name arrives.
    pub open spec fn attribute_name_pushed(self, s: Seq<char>) -> EmitterView {
        EmitterView {
            buffers: BuffersView {
                current_attribute_name: self.buffers.current_attribute_name + s,
                ..self.buffers
            },
            ..self
        }
    }

    /// A piece of the attribute's value arrives.
    pub open spec fn attribute_value_pushed(self, s: Seq<char>) -> EmitterView {
        EmitterView {
            buffers: BuffersView {
                current_attribute_value: self.buffers.current_attribute_value + s,
                ..self.buffers
            },
            ..self
        }
    }

    /// The tokenizer names the start tag that counts as the last one; no
    /// name stands for the empty one.
    pub open spec fn last_start_tag_set(self, tag: Option<Seq<char>>) -> EmitterView {
        EmitterView {
            buffers: BuffersView {
                last_start_tag: match tag {
                    Some(name) => name,
                    None => Seq::empty(),
                },
                ..self.buffers
            },
            ..self
        }
    }

    /// The tag is marked self-closing: where it bounds a paragraph, no
    /// paragraph is open after it.
    pub open spec fn self_closed(self) -> EmitterView {
        EmitterView { in_paragraph: self.in_paragraph && !self.at_paragraph_tag(), ..self }
    }

    /// The tag that is being assembled is an end tag, has a name, and that
    /// name is the last start tag's.
    pub open spec fn is_appropriate_end_tag(self) -> bool {
        &&& self.current_tag_is_closing
        &&& self.buffers.current_tag_name.len() > 0
        &&& self.buffers.current_tag_name == self.buffers.last_start_tag
    }

    /// Character data that arrives in this state goes to the walker.
    pub open spec fn feeds_walker(self) -> bool {
        self.get_paragraphs && self.in_paragraph
    }

    /// The requests that the pending attribute gives rise to.
    pub open spec fn pending_requests(self) -> Seq<Request> {
        attribute_requests(
            self.buffers.current_tag_name,
            self.buffers.current_attribute_name,
            self.buffers.current_attribute_value,
            self.check_anchors,
        )
    }

    /// The pending attribute is finished: its records join the links, and
    /// its name and value are cleared.
    pub open spec fn attribute_flushed(self, records: Seq<LinkView>) -> EmitterView {
        EmitterView {
            buffers: BuffersView {
                current_attribute_name: Seq::empty(),
                current_attribute_value: Seq::empty(),
                ..self.buffers
            },
            links: self.links + records,
            ..self
        }
    }

    /// A start tag is emitted, its attributes all flushed: it becomes the
    /// last start tag, and where it bounds a paragraph, a paragraph opens at
    /// the end of the links.
    pub open spec fn start_tag_emitted(self) -> EmitterView {
        EmitterView {
            buffers: BuffersView {
                current_tag_name: Seq::empty(),
                last_start_tag: self.buffers.current_tag_name,
                ..self.buffers
            },
            in_paragraph: self.in_paragraph || self.at_paragraph_tag(),
            last_paragraph_i: if self.at_paragraph_tag() {
                self.links.len() as int
            } else {
                self.last_paragraph_i
            },
            ..self
        }
    }

    /// An end tag is emitted, its attributes all flushed: where it bounds a
    /// paragraph, the used links since the paragraph mark get `paragraph` if
    /// a paragraph is open, no paragraph is open afterwards, and the mark
    /// moves to the end of the links.
    pub open spec fn end_tag_emitted(self, paragraph: Option<Paragraph>) -> EmitterView {
        if self.at_paragraph_tag() {
            EmitterView {
                buffers: BuffersView { current_tag_name: Seq::empty(), ..self.buffers },
                links: if self.in_paragraph {
                    stamped_from(self.links, self.last_paragraph_i, paragraph)
                } else {
                    self.links
                },
                in_paragraph: false,
                last_paragraph_i: self.links.len() as int,
                ..self
            }
        } else {
            EmitterView {
                buffers: BuffersView { current_tag_name: Seq::empty(), ..self.buffers },
                ..self
            }
        }
    }

    /// The tag is emitted: the pending attribute is flushed with `records`,
    /// then the tag takes effect; `paragraph` is the fingerprint that the
    /// walker gave, which counts only at the end of a paragraph.
    pub open spec fn tag_emitted(
        self,
        records: Seq<LinkView>,
        paragraph: Option<Paragraph>,
    ) -> EmitterView {
        let flushed = self.attribute_flushed(records);
        if flushed.current_tag_is_closing {
            flushed.end_tag_emitted(paragraph)
        } else {
            flushed.start_tag_emitted()
        }
    }
}

/// `after` is `before` with its pending attribute finished: classified
/// once, its links resolved by the document and appended, its name and
/// value cleared.
pub open spec fn flushes<D: Document>(doc: &D,
    arena: &bumpalo::Bump, before: EmitterView, after: EmitterView) -> bool {
    exists|records: Seq<LinkView>|
        {
            &&& answers_all(doc, arena, before.check_anchors, before.pending_requests(), records)
            &&& after == before.attribute_flushed(records)
        }
}

/// `after` is `before` with its tag emitted, for the links that the
/// document resolved and for some fingerprint from the walker.
pub open spec fn emits<D: Document>(doc: &D,
    arena: &bumpalo::Bump, before: EmitterView, after: EmitterView) -> bool {
    exists|records: Seq<LinkView>, paragraph: Option<Paragraph>|
        {
            &&& answers_all(doc, arena, before.check_anchors, before.pending_requests(), records)
            &&& after == before.tag_emitted(records, paragraph)
        }
}

/// One push of the tokenizer, with the text that it carries.
pub enum Event {
    SetLastStartTag(Option<Seq<char>>),
    EmitString(Seq<char>),
    InitStartTag,
    InitEndTag,
    EmitCurrentTag,
    SetSelfClosing,
    PushTagName(Seq<char>),
    InitAttribute,
    PushAttributeName(Seq<char>),
    PushAttributeValue(Seq<char>),
    CurrentIsAppropriateEndTagToken,
}

/// `event` can take the parse of `doc` from `before` to `after`.
pub open spec fn step<D: Document>(
    doc: &D,
    arena: &bumpalo::Bump,
    before: EmitterView,
    event: Event,
    after: EmitterView,
) -> bool {
    match event {
        Event::SetLastStartTag(tag) => after == before.last_start_tag_set(tag),
        Event::EmitString(_) => after == before,
        Event::InitStartTag => after == before.start_tag_begun(),
        Event::InitEndTag => after == before.end_tag_begun(),
        Event::EmitCurrentTag => emits(doc, arena, before, after),
        Event::SetSelfClosing => after == before.self_closed(),
        Event::PushTagName(s) => after == before.tag_name_pushed(s),
        Event::InitAttribute => flushes(doc, arena, before, after),
        Event::PushAttributeName(s) => after == before.attribute_name_pushed(s),
        Event::PushAttributeValue(s) => after == before.attribute_value_pushed(s),
        Event::CurrentIsAppropriateEndTagToken => after == before,
    }
}

/// The events take the parse of `doc` through the states, one step each.
pub open spec fn runs<D: Document>(doc: &D,
    arena: &bumpalo::Bump, states: Seq<EmitterView>, events: Seq<Event>) -> bool {
    &&& states.len() == events.len() + 1
    &&& forall|i: int|
        0 <= i < events.len() ==> step(doc, arena, states[i], #[trigger] events[i], states[i + 1])
}

} // verus!
