//! What holds of every parse, proved of the state machine that the
//! extractor's contracts speak of.

use vstd::prelude::*;
use crate::buffers::{BuffersView, ParserBuffers};
use crate::link::{Document, LinkView, Paragraph};
use crate::model::{
    answers_all, attribute_requests, runs, stamped_from, step, used_requests, EmitterView, Event,
};
use crate::tags::{classify, AttributeKind};
use crate::text::{srcset_urls, trimmed};

verus! {

/// The pair of tag and attribute name stands in the table of attributes
/// that carry a link.
pub open spec fn in_table(tag: Seq<char>, name: Seq<char>) -> bool {
    ||| (tag == "link"@ || tag == "area"@ || tag == "a"@) && name == "href"@
    ||| tag == "a"@ && name == "name"@
    ||| (tag == "img"@ || tag == "script"@ || tag == "iframe"@) && name == "src"@
    ||| tag == "img"@ && name == "srcset"@
    ||| tag == "object"@ && name == "data"@
}

/// None of the links defines an anchor.
pub open spec fn no_defines(links: Seq<LinkView>) -> bool {
    forall|i: int| 0 <= i < links.len() ==> #[trigger] links[i] is Uses
}

/// The link is a defined anchor, or a used link with the paragraph given.
pub open spec fn carries(link: LinkView, paragraph: Option<Paragraph>) -> bool {
    match link {
        LinkView::Uses { href, path, paragraph: carried } => carried == paragraph,
        LinkView::Defines { href } => true,
    }
}

/// Every used link from position `from` on has the paragraph given.
pub open spec fn share_paragraph(
    links: Seq<LinkView>,
    from: int,
    paragraph: Option<Paragraph>,
) -> bool {
    forall|i: int| from <= i < links.len() ==> carries(#[trigger] links[i], paragraph)
}

/// The event emits a tag that ends an open paragraph: the one event that
/// writes to links that the buffer already holds.
pub open spec fn ends_paragraph(before: EmitterView, event: Event) -> bool {
    &&& event is EmitCurrentTag
    &&& before.current_tag_is_closing
    &&& before.at_paragraph_tag()
    &&& before.in_paragraph
}

/// The event leaves the paragraph state alone: it neither emits a tag that
/// bounds a paragraph nor marks one as self-closing.
pub open spec fn keeps_paragraph(before: EmitterView, event: Event) -> bool {
    (event is EmitCurrentTag || event is SetSelfClosing) ==> !before.at_paragraph_tag()
}

/// Every request of a list of candidate URLs is for a used link.
pub proof fn lemma_used_requests_use(urls: Seq<Seq<char>>)
    ensures
        used_requests(urls).len() <= urls.len(),
        forall|i: int|
            0 <= i < used_requests(urls).len() ==> !(#[trigger] used_requests(urls)[i]).defines,
    decreases urls.len(),
{
    if urls.len() > 0 {
        lemma_used_requests_use(urls.drop_last());
    }
}

/// The table of attributes, row by row. A pair outside the table gives a
/// record only if the attribute is `id`. The row for `name` and, outside
/// the table, `id` give nothing but anchors: one where anchors are checked,
/// none where they are not. Every other row gives nothing but used links.
pub proof fn law_classification(
    tag: Seq<char>,
    name: Seq<char>,
    value: Seq<char>,
    check_anchors: bool,
)
    ensures
        ({
            let requests = attribute_requests(tag, name, value, check_anchors);
            let anchor = classify(tag, name) is AnchorDef;
            &&& !in_table(tag, name) && name != "id"@ ==> requests.len() == 0
            &&& anchor == (tag == "a"@ && name == "name"@ || !in_table(tag, name) && name
                == "id"@)
            &&& anchor && check_anchors ==> requests.len() == 1
            &&& anchor && !check_anchors ==> requests.len() == 0
            &&& forall|i: int| 0 <= i < requests.len() ==> (#[trigger] requests[i]).defines == anchor
        }),
{
    reveal_strlit("href");
    reveal_strlit("name");
    reveal_strlit("src");
    reveal_strlit("srcset");
    reveal_strlit("data");
    reveal_strlit("id");
    assert("href"@.len() == 4 && "name"@.len() == 4 && "src"@.len() == 3);
    assert("srcset"@.len() == 6 && "data"@.len() == 4 && "id"@.len() == 2);
    assert("href"@[0] == 'h' && "name"@[0] == 'n');
    match classify(tag, name) {
        AttributeKind::UsedLink => {
            lemma_used_requests_use(seq![trimmed(value)]);
        },
        AttributeKind::UsedLinkSrcset => {
            lemma_used_requests_use(srcset_urls(trimmed(value)));
        },
        AttributeKind::AnchorDef => {},
        AttributeKind::Other => {},
    }
}

/// Without anchor checks no attribute asks for an anchor.
pub proof fn law_no_anchor_requests(tag: Seq<char>, name: Seq<char>, value: Seq<char>)
    ensures
        forall|i: int|
            0 <= i < attribute_requests(tag, name, value, false).len() ==> !(
            #[trigger] attribute_requests(tag, name, value, false)[i]).defines,
{
    law_classification(tag, name, value, false);
}

/// Without anchor checks no step adds a defined anchor, and no step turns
/// the checks on.
pub proof fn law_no_defines_without_checks<D: Document>(
    doc: &D,
    arena: &bumpalo::Bump,
    before: EmitterView,
    event: Event,
    after: EmitterView,
)
    requires
        step(doc, arena, before, event, after),
        !before.check_anchors,
        no_defines(before.links),
    ensures
        !after.check_anchors,
        no_defines(after.links),
{
    let requests = before.pending_requests();
    law_no_anchor_requests(
        before.buffers.current_tag_name,
        before.buffers.current_attribute_name,
        before.buffers.current_attribute_value,
    );
    match event {
        Event::InitAttribute => {
            let records = choose|records: Seq<LinkView>|
                {
                    &&& answers_all(doc, arena, before.check_anchors, requests, records)
                    &&& after == before.attribute_flushed(records)
                };
            assert forall|i: int| 0 <= i < after.links.len() implies (
            #[trigger] after.links[i]) is Uses by {
                if i >= before.links.len() {
                    let k = i - before.links.len();
                    assert(after.links[i] == records[k]);
                    assert(!requests[k].defines);
                } else {
                    assert(after.links[i] == before.links[i]);
                }
            }
        },
        Event::EmitCurrentTag => {
            let (records, paragraph) = choose|records: Seq<LinkView>, paragraph: Option<Paragraph>|
                {
                    &&& answers_all(doc, arena, before.check_anchors, requests, records)
                    &&& after == before.tag_emitted(records, paragraph)
                };
            let flushed = before.attribute_flushed(records);
            assert forall|i: int| 0 <= i < flushed.links.len() implies (
            #[trigger] flushed.links[i]) is Uses by {
                if i >= before.links.len() {
                    let k = i - before.links.len();
                    assert(flushed.links[i] == records[k]);
                    assert(!requests[k].defines);
                } else {
                    assert(flushed.links[i] == before.links[i]);
                }
            }
            assert forall|i: int| 0 <= i < after.links.len() implies (
            #[trigger] after.links[i]) is Uses by {
                assert(flushed.links[i] is Uses);
            }
        },
        _ => {},
    }
}

/// The paragraph mark never leaves the list of links.
pub proof fn law_mark_stays_within_links<D: Document>(
    doc: &D,
    arena: &bumpalo::Bump,
    before: EmitterView,
    event: Event,
    after: EmitterView,
)
    requires
        step(doc, arena, before, event, after),
        before.wf(),
    ensures
        after.wf(),
{
}

/// Links are appended and never removed, and the only step that writes to a
/// link already in the buffer is the end of an open paragraph; even that
/// step leaves every link before the paragraph mark as it was. The mark
/// itself only moves forward.
pub proof fn law_links_before_mark_are_final<D: Document>(
    doc: &D,
    arena: &bumpalo::Bump,
    before: EmitterView,
    event: Event,
    after: EmitterView,
)
    requires
        step(doc, arena, before, event, after),
        before.wf(),
    ensures
        before.links.len() <= after.links.len(),
        before.last_paragraph_i <= after.last_paragraph_i,
        after.links.take(before.last_paragraph_i) == before.links.take(before.last_paragraph_i),
        !ends_paragraph(before, event) ==> after.links.take(before.links.len() as int)
            == before.links,
{
    assert(after.links.take(before.last_paragraph_i) =~= before.links.take(
        before.last_paragraph_i,
    ));
    if !ends_paragraph(before, event) {
        assert(after.links.take(before.links.len() as int) =~= before.links);
    }
}

/// A start tag that bounds a paragraph opens one at the end of the links,
/// whatever its attributes added.
pub proof fn law_start_tag_opens_paragraph<D: Document>(
    doc: &D,
    arena: &bumpalo::Bump,
    before: EmitterView,
    after: EmitterView,
)
    requires
        step(doc, arena, before, Event::EmitCurrentTag, after),
        !before.current_tag_is_closing,
        before.at_paragraph_tag(),
    ensures
        after.in_paragraph,
        after.last_paragraph_i == after.links.len(),
{
}

/// A tag that bounds a paragraph and is marked self-closing leaves no
/// paragraph open, and touches no link.
pub proof fn law_self_closing_closes_paragraph<D: Document>(
    doc: &D,
    arena: &bumpalo::Bump,
    before: EmitterView,
    after: EmitterView,
)
    requires
        step(doc, arena, before, Event::SetSelfClosing, after),
        before.at_paragraph_tag(),
    ensures
        !after.in_paragraph,
        after.links == before.links,
        after.last_paragraph_i == before.last_paragraph_i,
{
}

/// A step that does not end an open paragraph leaves the links that it
/// found as they were, and what it appends carries no paragraph.
pub proof fn lemma_appended_links_are_unstamped<D: Document>(
    doc: &D,
    arena: &bumpalo::Bump,
    before: EmitterView,
    event: Event,
    after: EmitterView,
)
    requires
        step(doc, arena, before, event, after),
        !ends_paragraph(before, event),
    ensures
        before.links.len() <= after.links.len(),
        after.links.take(before.links.len() as int) == before.links,
        share_paragraph(after.links, before.links.len() as int, None),
{
    match event {
        Event::InitAttribute => {
            let records = choose|records: Seq<LinkView>|
                {
                    &&& answers_all(
                        doc,
                        arena,
                        before.check_anchors,
                        before.pending_requests(),
                        records,
                    )
                    &&& after == before.attribute_flushed(records)
                };
            assert forall|i: int| before.links.len() <= i < after.links.len() implies carries(
                #[trigger] after.links[i],
                None,
            ) by {
                assert(after.links[i] == records[i - before.links.len()]);
            }
        },
        Event::EmitCurrentTag => {
            let (records, paragraph) = choose|records: Seq<LinkView>, paragraph: Option<Paragraph>|
                {
                    &&& answers_all(
                        doc,
                        arena,
                        before.check_anchors,
                        before.pending_requests(),
                        records,
                    )
                    &&& after == before.tag_emitted(records, paragraph)
                };
            assert(after.links == before.links + records);
            assert forall|i: int| before.links.len() <= i < after.links.len() implies carries(
                #[trigger] after.links[i],
                None,
            ) by {
                assert(after.links[i] == records[i - before.links.len()]);
            }
        },
        _ => {},
    }
    assert(after.links.take(before.links.len() as int) =~= before.links);
}

/// Links are stamped only where a paragraph ends. Through any events of
/// which none ends an open paragraph, such as the self-closing of a tag
/// that bounds a paragraph, the links from before stay as they were, and
/// every used link that was appended meanwhile has no paragraph.
pub proof fn law_unstamped_until_paragraph_ends<D: Document>(
    doc: &D,
    arena: &bumpalo::Bump,
    states: Seq<EmitterView>,
    events: Seq<Event>,
)
    requires
        runs(doc, arena, states, events),
        forall|i: int| 0 <= i < events.len() ==> !ends_paragraph(states[i], #[trigger] events[i]),
    ensures
        states.last().links.len() >= states[0].links.len(),
        states.last().links.take(states[0].links.len() as int) == states[0].links,
        share_paragraph(states.last().links, states[0].links.len() as int, None),
    decreases events.len(),
{
    if events.len() == 0 {
        assert(states[0].links.take(states[0].links.len() as int) =~= states[0].links);
    } else {
        let n = events.len() - 1;
        let shorter = states.drop_last();
        let earlier = events.drop_last();
        assert(runs(doc, arena, shorter, earlier)) by {
            assert forall|i: int| 0 <= i < earlier.len() implies step(
                doc,
                arena,
                shorter[i],
                #[trigger] earlier[i],
                shorter[i + 1],
            ) by {
                assert(earlier[i] == events[i]);
            }
        }
        assert forall|i: int| 0 <= i < earlier.len() implies !ends_paragraph(
            shorter[i],
            #[trigger] earlier[i],
        ) by {
            assert(earlier[i] == events[i]);
        }
        law_unstamped_until_paragraph_ends(doc, arena, shorter, earlier);
        let before = states[n];
        let after = states[n + 1];
        assert(shorter.last() == before);
        assert(step(doc, arena, before, events[n], after));
        lemma_appended_links_are_unstamped(doc, arena, before, events[n], after);
        assert(after.links.take(states[0].links.len() as int) =~= states[0].links) by {
            assert(after.links.take(before.links.len() as int) == before.links);
            assert(before.links.take(states[0].links.len() as int) == states[0].links);
        }
        assert forall|i: int| states[0].links.len() <= i < after.links.len() implies carries(
            #[trigger] after.links[i],
            None,
        ) by {
            if i < before.links.len() {
                assert(after.links.take(before.links.len() as int)[i] == before.links[i]);
                assert(carries(before.links[i], None));
            }
        }
    }
}

/// While no tag that bounds a paragraph is emitted or marked self-closing,
/// the paragraph stays open, its mark stays where it is, and the links up
/// to the mark stay as they are.
pub proof fn lemma_paragraph_stays_open<D: Document>(
    doc: &D,
    arena: &bumpalo::Bump,
    states: Seq<EmitterView>,
    events: Seq<Event>,
)
    requires
        runs(doc, arena, states, events),
        states[0].wf(),
        states[0].in_paragraph,
        forall|i: int| 0 <= i < events.len() ==> keeps_paragraph(states[i], #[trigger] events[i]),
    ensures
        states.last().wf(),
        states.last().in_paragraph,
        states.last().last_paragraph_i == states[0].last_paragraph_i,
        states.last().links.len() >= states[0].links.len(),
        states.last().links.take(states[0].links.len() as int) == states[0].links,
    decreases events.len(),
{
    if events.len() == 0 {
        assert(states[0].links.take(states[0].links.len() as int) =~= states[0].links);
    } else {
        let n = events.len() - 1;
        let shorter = states.drop_last();
        let earlier = events.drop_last();
        assert(runs(doc, arena, shorter, earlier)) by {
            assert forall|i: int| 0 <= i < earlier.len() implies step(
                doc,
                arena,
                shorter[i],
                #[trigger] earlier[i],
                shorter[i + 1],
            ) by {
                assert(earlier[i] == events[i]);
            }
        }
        assert forall|i: int| 0 <= i < earlier.len() implies keeps_paragraph(
            shorter[i],
            #[trigger] earlier[i],
        ) by {
            assert(earlier[i] == events[i]);
        }
        lemma_paragraph_stays_open(doc, arena, shorter, earlier);
        let before = states[n];
        let after = states[n + 1];
        assert(shorter.last() == before);
        assert(step(doc, arena, before, events[n], after));
        assert(keeps_paragraph(before, events[n]));
        law_links_before_mark_are_final(doc, arena, before, events[n], after);
        assert(!ends_paragraph(before, events[n]));
        assert(after.links.take(states[0].links.len() as int) =~= states[0].links) by {
            assert(after.links.take(before.links.len() as int) == before.links);
            assert(before.links.take(states[0].links.len() as int) == states[0].links);
        }
    }
}

/// Paragraph back-patching. A start tag that bounds a paragraph is
/// emitted; then come any events that neither emit such a tag nor mark one
/// as self-closing; then an end tag that bounds a paragraph is emitted.
/// Afterwards every used link that was appended since the start tag carries
/// one and the same paragraph; every link from before the start tag is as
/// it was; no link was removed; and no paragraph is open.
pub proof fn law_paragraph_back_patching<D: Document>(
    doc: &D,
    arena: &bumpalo::Bump,
    states: Seq<EmitterView>,
    events: Seq<Event>,
)
    requires
        runs(doc, arena, states, events),
        events.len() >= 2,
        states[0].wf(),
        events[0] is EmitCurrentTag,
        !states[0].current_tag_is_closing,
        states[0].at_paragraph_tag(),
        forall|i: int|
            1 <= i < events.len() - 1 ==> keeps_paragraph(states[i], #[trigger] events[i]),
        events.last() is EmitCurrentTag,
        states[events.len() - 1].current_tag_is_closing,
        states[events.len() - 1].at_paragraph_tag(),
    ensures
        ({
            let opened = states[1];
            let closed = states.last();
            &&& !closed.in_paragraph
            &&& closed.last_paragraph_i == closed.links.len()
            &&& closed.links.len() >= opened.links.len()
            &&& closed.links.take(opened.links.len() as int) == opened.links
            &&& exists|paragraph: Option<Paragraph>|
                share_paragraph(closed.links, opened.links.len() as int, paragraph)
        }),
{
    let n = events.len() - 1;
    let opened = states[1];
    let closed = states.last();
    assert(step(doc, arena, states[0], events[0], states[1]));
    law_start_tag_opens_paragraph(doc, arena, states[0], opened);
    law_mark_stays_within_links(doc, arena, states[0], events[0], opened);
    let middle = states.subrange(1, n + 1);
    let quiet = events.subrange(1, n);
    assert(runs(doc, arena, middle, quiet)) by {
        assert forall|i: int| 0 <= i < quiet.len() implies step(
            doc,
            arena,
            middle[i],
            #[trigger] quiet[i],
            middle[i + 1],
        ) by {
            assert(quiet[i] == events[i + 1]);
            assert(step(doc, arena, states[i + 1], events[i + 1], states[i + 2]));
        }
    }
    assert forall|i: int| 0 <= i < quiet.len() implies keeps_paragraph(
        middle[i],
        #[trigger] quiet[i],
    ) by {
        assert(quiet[i] == events[i + 1]);
    }
    lemma_paragraph_stays_open(doc, arena, middle, quiet);
    let before = states[n];
    assert(middle.last() == before);
    assert(middle[0] == opened);
    assert(step(doc, arena, before, events[n], closed));
    let (records, paragraph) = choose|records: Seq<LinkView>, paragraph: Option<Paragraph>|
        {
            &&& answers_all(doc, arena, before.check_anchors, before.pending_requests(), records)
            &&& closed == before.tag_emitted(records, paragraph)
        };
    let flushed = before.attribute_flushed(records);
    assert(closed.links == stamped_from(flushed.links, before.last_paragraph_i, paragraph));
    assert(closed.links.take(opened.links.len() as int) =~= opened.links) by {
        assert(before.links.take(opened.links.len() as int) == opened.links);
    }
    assert forall|i: int| opened.links.len() <= i < closed.links.len() implies carries(
        #[trigger] closed.links[i],
        paragraph,
    ) by {
        assert(closed.links[i] == flushed.links[i].stamped(paragraph));
    }
    assert(share_paragraph(closed.links, opened.links.len() as int, paragraph));
}

/// Buffers that were reset stand for fresh ones: whatever events a parse
/// on fresh buffers can go through, with whatever outcome, a parse on the
/// reset buffers can go through with the same outcome.
pub proof fn law_reset_buffers_parse_as_fresh<D: Document>(
    doc: &D,
    arena: &bumpalo::Bump,
    reset: ParserBuffers,
    fresh: ParserBuffers,
    states: Seq<EmitterView>,
    events: Seq<Event>,
)
    requires
        reset@ == BuffersView::empty(),
        fresh@ == BuffersView::empty(),
        runs(doc, arena, states, events),
        states[0].buffers == fresh@,
    ensures
        states[0].buffers == reset@,
        runs(doc, arena, states.update(0, EmitterView { buffers: reset@, ..states[0] }), events),
{
    assert(states.update(0, EmitterView { buffers: reset@, ..states[0] }) =~= states);
}

} // verus!
