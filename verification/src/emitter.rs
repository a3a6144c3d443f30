//! The sink for the tokenizer's pushes: it assembles tags and attributes in
//! the scratch strings and appends the links that they carry.

use vstd::prelude::*;
use vstd::string::*;
use crate::arena::{
    arena_push, arena_push_str, arena_str, arena_string, link_at_mut, link_count, links, push_link,
};
use crate::buffers::{clear_string, ParserBuffers};
use crate::link::{
    joined, located, DefinedLink, Document, Link, LinkView, Paragraph, ParagraphWalker, UsedLink,
};
use crate::model::{
    anchor_requests, answers, answers_all, stamped_from, step, used_requests, EmitterView, Event,
    Request,
};
use crate::scheme::is_bad_schema;
use crate::tags::{classify_attribute, is_paragraph_tag, lemma_paragraph_name_bytes, AttributeKind};
use crate::text::{split_srcset, srcset_urls, texts, trimmed, try_normalize_href_value};

verus! {

/// The state of one document's parse. It borrows the scratch strings and the
/// buffer of links from its driver, and owns the walker.
pub struct HyperlinkEmitter<'a, 'l, 'd, D: Document, P: ParagraphWalker> {
    /// Fingerprints the text of the open paragraph.
    pub paragraph_walker: P,
    /// Owns every href of the document.
    pub arena: &'a bumpalo::Bump,
    /// The document that is being parsed.
    pub document: &'l D,
    /// The links found so far.
    pub link_buf: &'d mut bumpalo::collections::Vec<'a, Link<'l>>,
    /// A paragraph is open.
    pub in_paragraph: bool,
    /// The paragraph mark: where the links of the open paragraph begin.
    pub last_paragraph_i: usize,
    /// Paragraph text is fed to the walker.
    pub get_paragraphs: bool,
    /// The scratch strings.
    pub buffers: &'d mut ParserBuffers,
    /// The tag that is being assembled is an end tag.
    pub current_tag_is_closing: bool,
    /// Anchors are recorded, and fragments kept.
    pub check_anchors: bool,
}

impl<'a, 'l, 'd, D: Document, P: ParagraphWalker> View for HyperlinkEmitter<'a, 'l, 'd, D, P> {
    type V = EmitterView;

    open spec fn view(&self) -> EmitterView {
        EmitterView {
            buffers: self.buffers@,
            in_paragraph: self.in_paragraph,
            last_paragraph_i: self.last_paragraph_i as int,
            get_paragraphs: self.get_paragraphs,
            current_tag_is_closing: self.current_tag_is_closing,
            check_anchors: self.check_anchors,
            links: links(self.link_buf),
        }
    }
}

/// Resolves one screened URL and appends the used link that comes of it.
fn push_used_link<'a, 'l, D: Document>(
    document: &'l D,
    arena: &'a bumpalo::Bump,
    check_anchors: bool,
    link_buf: &mut bumpalo::collections::Vec<'a, Link<'l>>,
    url: &str,
) where 'a: 'l
    ensures
        links(final(link_buf)).len() == links(old(link_buf)).len() + 1,
        links(final(link_buf)).drop_last() == links(old(link_buf)),
        answers(
            document,
            arena,
            check_anchors,
            Request { defines: false, raw: url@ },
            links(final(link_buf)).last(),
        ),
{
    let href = document.join(arena, check_anchors, url);
    let path = document.path();
    let link = Link::Uses(UsedLink { href, path, paragraph: None });
    proof {
        assert(call_ensures(D::join, (document, arena, check_anchors, url), href));
        assert(joined(document, arena, check_anchors, url@, href@));
        assert(call_ensures(D::path, (document,), path));
        assert(located(document, path@));
    }
    push_link(link_buf, link);
    assert(links(link_buf).drop_last() =~= links(old(link_buf)));
}

/// Sets `paragraph` on every used link from position `from` on; anchors
/// that the document defines stay as they are.
pub fn stamp_links<'a, 'l>(
    link_buf: &mut bumpalo::collections::Vec<'a, Link<'l>>,
    from: usize,
    paragraph: Option<Paragraph>,
)
    requires
        from <= links(old(link_buf)).len(),
    ensures
        links(final(link_buf)) == stamped_from(links(old(link_buf)), from as int, paragraph),
{
    let n: usize = link_count(link_buf);
    let mut i: usize = from;
    while i < n
        invariant
            from <= i <= n,
            n == links(old(link_buf)).len(),
            links(link_buf).len() == n,
            forall|j: int|
                0 <= j < n ==> #[trigger] links(link_buf)[j] == if from <= j < i {
                    links(old(link_buf))[j].stamped(paragraph)
                } else {
                    links(old(link_buf))[j]
                },
        decreases n - i,
    {
        let link = link_at_mut(link_buf, i);
        match link {
            Link::Uses(used) => {
                used.paragraph = paragraph;
            },
            Link::Defines(_) => {},
        }
        i += 1;
    }
    assert(links(link_buf) =~= stamped_from(links(old(link_buf)), from as int, paragraph));
}

impl<'a, 'l, 'd, D: Document, P: ParagraphWalker> HyperlinkEmitter<'a, 'l, 'd, D, P> where 'a: 'l {
    /// The document and the arena are those of `before`.
    pub open spec fn keeps_setting(&self, before: &Self) -> bool {
        self.document == before.document && self.arena == before.arena
    }

    /// `event` has taken the parse from `before` to this state, for the
    /// same document and arena.
    pub open spec fn follows(&self, before: &Self, event: Event) -> bool {
        &&& step(before.document, before.arena, before@, event, self@)
        &&& self.keeps_setting(before)
    }

    /// The walker is as it was in `before`.
    pub open spec fn keeps_walker(&self, before: &Self) -> bool {
        self.paragraph_walker == before.paragraph_walker
    }

    /// The state is that of `before` with `records` behind its links, where
    /// `records` answer `requests`.
    pub open spec fn appended(&self, before: &Self, requests: Seq<Request>) -> bool {
        exists|records: Seq<LinkView>|
            {
                &&& answers_all(
                    before.document,
                    before.arena,
                    before.check_anchors,
                    requests,
                    records,
                )
                &&& self@ == (EmitterView { links: before@.links + records, ..before@ })
            }
    }

    /// The attribute's value is one link that the document uses.
    fn extract_used_link(&mut self)
        ensures
            final(self).appended(
                old(self),
                used_requests(seq![trimmed(old(self)@.buffers.current_attribute_value)]),
            ),
            final(self).keeps_setting(old(self)),
            final(self).keeps_walker(old(self)),
    {
        let value = try_normalize_href_value(self.buffers.current_attribute_value.as_str());
        let ghost urls = seq![value@];
        assert(urls.drop_last() =~= Seq::<Seq<char>>::empty());
        assert(used_requests(urls.drop_last()) =~= Seq::<Request>::empty());
        if is_bad_schema(value.as_bytes()) {
            assert(old(self)@.links + Seq::<LinkView>::empty() =~= old(self)@.links);
            assert(answers_all(
                old(self).document,
                old(self).arena,
                old(self).check_anchors,
                used_requests(urls),
                Seq::<LinkView>::empty(),
            ));
        } else {
            push_used_link(self.document, self.arena, self.check_anchors, self.link_buf, value);
            proof {
                let records = seq![self@.links.last()];
                assert(self@.links.drop_last() == old(self)@.links);
                assert(self@.links =~= old(self)@.links + records);
                assert(used_requests(urls) =~= seq![Request { defines: false, raw: value@ }]);
                assert(answers_all(
                    old(self).document,
                    old(self).arena,
                    old(self).check_anchors,
                    used_requests(urls),
                    records,
                ));
            }
        }
    }

    /// The attribute's value is a `srcset`: each candidate's URL is a link
    /// that the document uses.
    fn extract_used_link_srcset(&mut self)
        ensures
            final(self).appended(
                old(self),
                used_requests(srcset_urls(trimmed(old(self)@.buffers.current_attribute_value))),
            ),
            final(self).keeps_setting(old(self)),
            final(self).keeps_walker(old(self)),
    {
        let value = try_normalize_href_value(self.buffers.current_attribute_value.as_str());
        let urls = split_srcset(value);
        let ghost all = texts(urls@);
        let ghost mut records = Seq::<LinkView>::empty();
        let mut k: usize = 0;
        assert(all.take(0) =~= Seq::<Seq<char>>::empty());
        assert(old(self)@.links + records =~= old(self)@.links);
        while k < urls.len()
            invariant
                k <= urls.len(),
                all == texts(urls@),
                all == srcset_urls(trimmed(old(self)@.buffers.current_attribute_value)),
                self.keeps_setting(old(self)),
                self.keeps_walker(old(self)),
                self@ == (EmitterView { links: old(self)@.links + records, ..old(self)@ }),
                answers_all(
                    old(self).document,
                    old(self).arena,
                    old(self).check_anchors,
                    used_requests(all.take(k as int)),
                    records,
                ),
            decreases urls.len() - k,
        {
            let url = urls[k];
            assert(all.take(k + 1).drop_last() =~= all.take(k as int));
            assert(all.take(k + 1).last() == url@);
            if !is_bad_schema(url.as_bytes()) {
                let ghost before = self@.links;
                push_used_link(self.document, self.arena, self.check_anchors, self.link_buf, url);
                proof {
                    let record = self@.links.last();
                    assert(self@.links.drop_last() == before);
                    assert(self@.links =~= before.push(record));
                    records = records.push(record);
                    assert(self@.links =~= old(self)@.links + records);
                }
            }
            k += 1;
        }
        assert(all.take(k as int) =~= all);
    }

    /// The attribute's value names an anchor that the document defines.
    fn extract_anchor_def(&mut self)
        ensures
            final(self).appended(
                old(self),
                anchor_requests(
                    old(self)@.buffers.current_attribute_value,
                    old(self).check_anchors,
                ),
            ),
            final(self).keeps_setting(old(self)),
            final(self).keeps_walker(old(self)),
    {
        if self.check_anchors {
            let mut anchor = arena_string(self.arena);
            let value = try_normalize_href_value(self.buffers.current_attribute_value.as_str());
            arena_push(&mut anchor, '#');
            arena_push_str(&mut anchor, value);
            let raw = arena_str(&anchor);
            assert(raw@ =~= seq!['#'] + value@);
            let href = self.document.join(self.arena, self.check_anchors, raw);
            let link = Link::Defines(DefinedLink { href });
            proof {
                assert(call_ensures(
                    D::join,
                    (self.document, self.arena, self.check_anchors, raw),
                    href,
                ));
                assert(joined(self.document, self.arena, self.check_anchors, raw@, href@));
            }
            push_link(self.link_buf, link);
            proof {
                let records = seq![link@];
                assert(self@.links =~= old(self)@.links + records);
                assert(answers_all(
                    old(self).document,
                    old(self).arena,
                    old(self).check_anchors,
                    anchor_requests(
                        old(self)@.buffers.current_attribute_value,
                        old(self).check_anchors,
                    ),
                    records,
                ));
            }
        } else {
            assert(old(self)@.links + Seq::<LinkView>::empty() =~= old(self)@.links);
            assert(answers_all(
                old(self).document,
                old(self).arena,
                old(self).check_anchors,
                Seq::<Request>::empty(),
                Seq::<LinkView>::empty(),
            ));
        }
    }

    /// Finishes the pending attribute: classifies it by its tag and name,
    /// appends the links that it carries, and clears its name and value.
    fn flush_old_attribute(&mut self)
        ensures
            final(self).follows(old(self), Event::InitAttribute),
            final(self).keeps_walker(old(self)),
    {
        let kind = classify_attribute(
            self.buffers.current_tag_name.as_str(),
            self.buffers.current_attribute_name.as_str(),
        );
        match kind {
            AttributeKind::UsedLink => self.extract_used_link(),
            AttributeKind::UsedLinkSrcset => self.extract_used_link_srcset(),
            AttributeKind::AnchorDef => self.extract_anchor_def(),
            AttributeKind::Other => {
                assert(old(self)@.links + Seq::<LinkView>::empty() =~= old(self)@.links);
                assert(answers_all(
                    old(self).document,
                    old(self).arena,
                    old(self).check_anchors,
                    Seq::<Request>::empty(),
                    Seq::<LinkView>::empty(),
                ));
            },
        }
        let ghost records = choose|records: Seq<LinkView>|
            {
                &&& answers_all(
                    old(self).document,
                    old(self).arena,
                    old(self).check_anchors,
                    old(self)@.pending_requests(),
                    records,
                )
                &&& self@ == (EmitterView { links: old(self)@.links + records, ..old(self)@ })
            };
        clear_string(&mut self.buffers.current_attribute_name);
        clear_string(&mut self.buffers.current_attribute_value);
        assert(self@ == old(self)@.attribute_flushed(records));
    }

    /// The tokenizer names the start tag that counts as the last one.
    pub fn set_last_start_tag(&mut self, last_start_tag: Option<&str>)
        ensures
            final(self).follows(
                old(self),
                Event::SetLastStartTag(
                    match last_start_tag {
                        Some(name) => Some(name@),
                        None => None,
                    },
                ),
            ),
            final(self).keeps_walker(old(self)),
    {
        clear_string(&mut self.buffers.last_start_tag);
        match last_start_tag {
            Some(name) => {
                self.buffers.last_start_tag.append(name);
                assert(self.buffers.last_start_tag@ =~= name@);
            },
            None => {},
        }
    }

    /// Character data arrives: inside a paragraph whose text is wanted it
    /// goes to the walker, and nowhere else.
    pub fn emit_string(&mut self, c: &str)
        ensures
            final(self).follows(old(self), Event::EmitString(c@)),
            !old(self)@.feeds_walker() ==> final(self).keeps_walker(old(self)),
            old(self)@.feeds_walker() ==> exists|walker: &mut P, text: &[u8]|
                {
                    &&& *walker == old(self).paragraph_walker
                    &&& *final(walker) == final(self).paragraph_walker
                    &&& text@ == c.spec_bytes()
                    &&& #[trigger] call_ensures(P::update, (walker, text), ())
                },
    {
        if self.get_paragraphs && self.in_paragraph {
            self.paragraph_walker.update(c.as_bytes());
        }
    }

    /// A start tag begins.
    pub fn init_start_tag(&mut self)
        ensures
            final(self).follows(old(self), Event::InitStartTag),
            final(self).keeps_walker(old(self)),
    {
        clear_string(&mut self.buffers.current_tag_name);
        self.current_tag_is_closing = false;
    }

    /// An end tag begins.
    pub fn init_end_tag(&mut self)
        ensures
            final(self).follows(old(self), Event::InitEndTag),
            final(self).keeps_walker(old(self)),
    {
        clear_string(&mut self.buffers.current_tag_name);
        self.current_tag_is_closing = true;
    }

    /// The tag is complete: its last attribute is finished, then the tag
    /// opens or closes a paragraph if it bounds one, and its name is
    /// cleared. The walker is consulted only for a tag that bounds a
    /// paragraph.
    pub fn emit_current_tag(&mut self)
        requires
            old(self)@.wf(),
        ensures
            final(self).follows(old(self), Event::EmitCurrentTag),
            final(self)@.wf(),
            !old(self)@.at_paragraph_tag() ==> final(self).keeps_walker(old(self)),
            old(self)@.at_paragraph_tag() ==> exists|walker: &mut P, paragraph: Option<Paragraph>|
                {
                    &&& *walker == old(self).paragraph_walker
                    &&& *final(walker) == final(self).paragraph_walker
                    &&& #[trigger] call_ensures(P::finish_paragraph, (walker,), paragraph)
                    &&& old(self).current_tag_is_closing && old(self).in_paragraph
                        ==> final(self)@.links == stamped_from(
                        final(self)@.links,
                        old(self).last_paragraph_i as int,
                        paragraph,
                    )
                },
    {
        self.flush_old_attribute();
        let ghost flushed = self@;
        let ghost records = choose|records: Seq<LinkView>|
            {
                &&& answers_all(
                    old(self).document,
                    old(self).arena,
                    old(self).check_anchors,
                    old(self)@.pending_requests(),
                    records,
                )
                &&& flushed == old(self)@.attribute_flushed(records)
            };
        let ghost mut given: Option<Paragraph> = None;
        let bounds_paragraph = is_paragraph_tag(self.buffers.current_tag_name.as_str().as_bytes());
        proof {
            lemma_paragraph_name_bytes(self.buffers.current_tag_name@);
        }
        if !self.current_tag_is_closing {
            clear_string(&mut self.buffers.last_start_tag);
            self.buffers.last_start_tag.append(self.buffers.current_tag_name.as_str());
            assert(self.buffers.last_start_tag@ =~= self.buffers.current_tag_name@);
            if bounds_paragraph {
                self.in_paragraph = true;
                self.last_paragraph_i = link_count(self.link_buf);
                self.paragraph_walker.finish_paragraph();
            }
        } else if bounds_paragraph {
            let paragraph = self.paragraph_walker.finish_paragraph();
            proof {
                given = paragraph;
            }
            if self.in_paragraph {
                stamp_links(self.link_buf, self.last_paragraph_i, paragraph);
                self.in_paragraph = false;
                assert(self@.links =~= stamped_from(
                    self@.links,
                    old(self).last_paragraph_i as int,
                    paragraph,
                ));
            }
            self.last_paragraph_i = link_count(self.link_buf);
        }
        clear_string(&mut self.buffers.current_tag_name);
        assert(self@ == old(self)@.tag_emitted(records, given));
    }

    /// The tag is marked self-closing: where it bounds a paragraph, it
    /// opens none.
    pub fn set_self_closing(&mut self)
        ensures
            final(self).follows(old(self), Event::SetSelfClosing),
            final(self).keeps_walker(old(self)),
    {
        let bounds_paragraph = is_paragraph_tag(self.buffers.current_tag_name.as_str().as_bytes());
        proof {
            lemma_paragraph_name_bytes(self.buffers.current_tag_name@);
        }
        if bounds_paragraph {
            self.in_paragraph = false;
        }
    }

    /// A piece of the tag's name arrives.
    pub fn push_tag_name(&mut self, s: &str)
        ensures
            final(self).follows(old(self), Event::PushTagName(s@)),
            final(self).keeps_walker(old(self)),
    {
        self.buffers.current_tag_name.append(s);
    }

    /// An attribute begins: the one before it, if any, is finished.
    pub fn init_attribute(&mut self)
        ensures
            final(self).follows(old(self), Event::InitAttribute),
            final(self).keeps_walker(old(self)),
    {
        self.flush_old_attribute();
    }

    /// A piece of the attribute's name arrives.
    pub fn push_attribute_name(&mut self, s: &str)
        ensures
            final(self).follows(old(self), Event::PushAttributeName(s@)),
            final(self).keeps_walker(old(self)),
    {
        self.buffers.current_attribute_name.append(s);
    }

    /// A piece of the attribute's value arrives.
    pub fn push_attribute_value(&mut self, s: &str)
        ensures
            final(self).follows(old(self), Event::PushAttributeValue(s@)),
            final(self).keeps_walker(old(self)),
    {
        self.buffers.current_attribute_value.append(s);
    }

    /// Whether the tag that is being assembled is the end tag that closes
    /// the last start tag.
    pub fn current_is_appropriate_end_tag_token(&mut self) -> (appropriate: bool)
        ensures
            appropriate == old(self)@.is_appropriate_end_tag(),
            final(self).follows(old(self), Event::CurrentIsAppropriateEndTagToken),
            final(self).keeps_walker(old(self)),
    {
        self.current_tag_is_closing && !self.buffers.current_tag_name.as_str().is_empty()
            && self.buffers.current_tag_name == self.buffers.last_start_tag
    }
}

} // verus!
