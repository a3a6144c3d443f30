use std::cell::RefCell;
use std::rc::Rc;

use bumpalo::collections::Vec as BumpVec;
use bumpalo::Bump;
use html5gum::{Emitter, Error, Tokenizer};
use hyperlink::buffers::ParserBuffers;
use hyperlink::emitter::{stamp_links, HyperlinkEmitter};
use hyperlink::link::{DefinedLink, Document, Link, Paragraph, ParagraphWalker, UsedLink};

/// Resolves nothing: an href is kept as written, behind a mark that shows
/// the flag it came with.
struct Page {
    path: String,
    show_flag: bool,
}

impl Page {
    fn plain() -> Page {
        Page { path: String::from("page.html"), show_flag: false }
    }

    fn flagged() -> Page {
        Page { path: String::from("page.html"), show_flag: true }
    }
}

impl Document for Page {
    fn path(&self) -> &str {
        &self.path
    }

    fn join<'b>(&self, arena: &'b Bump, check_anchors: bool, raw: &str) -> &'b str {
        if !self.show_flag {
            arena.alloc_str(raw)
        } else if check_anchors {
            arena.alloc_str(&format!("anchors:{}", raw))
        } else {
            arena.alloc_str(&format!("plain:{}", raw))
        }
    }
}

fn digest(text: &[u8]) -> u64 {
    let mut hash: u64 = 0xcbf2_9ce4_8422_2325;
    for byte in text {
        hash ^= u64::from(*byte);
        hash = hash.wrapping_mul(0x0000_0100_0000_01b3);
    }
    hash
}

/// Fingerprints the text of a paragraph, and keeps a log of what it was fed.
struct Walker {
    text: Vec<u8>,
    log: Rc<RefCell<Vec<String>>>,
}

impl Walker {
    fn new(log: &Rc<RefCell<Vec<String>>>) -> Walker {
        Walker { text: Vec::new(), log: Rc::clone(log) }
    }
}

impl ParagraphWalker for Walker {
    fn update(&mut self, text: &[u8]) {
        self.log.borrow_mut().push(String::from_utf8_lossy(text).into_owned());
        self.text.extend_from_slice(text);
    }

    fn finish_paragraph(&mut self) -> Option<Paragraph> {
        if self.text.is_empty() {
            return None;
        }
        let hash = digest(&self.text);
        self.text.clear();
        Some(Paragraph { hash })
    }
}

/// Hands the tokenizer's pushes on to the extractor.
struct Sink<'a, 'l, 'd>(HyperlinkEmitter<'a, 'l, 'd, Page, Walker>);

impl<'a: 'l, 'l, 'd> Emitter for Sink<'a, 'l, 'd> {
    type Token = ();

    fn set_last_start_tag(&mut self, last_start_tag: Option<&str>) {
        self.0.set_last_start_tag(last_start_tag)
    }

    fn pop_token(&mut self) -> Option<()> {
        None
    }

    fn emit_string(&mut self, c: &str) {
        self.0.emit_string(c)
    }

    fn init_start_tag(&mut self) {
        self.0.init_start_tag()
    }

    fn init_end_tag(&mut self) {
        self.0.init_end_tag()
    }

    fn emit_current_tag(&mut self) {
        assert!(self.0.last_paragraph_i <= self.0.link_buf.len());
        self.0.emit_current_tag()
    }

    fn set_self_closing(&mut self) {
        self.0.set_self_closing()
    }

    fn push_tag_name(&mut self, s: &str) {
        self.0.push_tag_name(s)
    }

    fn init_attribute(&mut self) {
        self.0.init_attribute()
    }

    fn push_attribute_name(&mut self, s: &str) {
        self.0.push_attribute_name(s)
    }

    fn push_attribute_value(&mut self, s: &str) {
        self.0.push_attribute_value(s)
    }

    fn current_is_appropriate_end_tag_token(&mut self) -> bool {
        self.0.current_is_appropriate_end_tag_token()
    }

    fn emit_current_comment(&mut self) {}

    fn emit_current_doctype(&mut self) {}

    fn emit_eof(&mut self) {}

    fn emit_error(&mut self, _: Error) {}

    fn init_comment(&mut self) {}

    fn init_doctype(&mut self) {}

    fn push_comment(&mut self, _: &str) {}

    fn push_doctype_name(&mut self, _: &str) {}

    fn push_doctype_public_identifier(&mut self, _: &str) {}

    fn push_doctype_system_identifier(&mut self, _: &str) {}

    fn set_doctype_public_identifier(&mut self, _: &str) {}

    fn set_doctype_system_identifier(&mut self, _: &str) {}

    fn set_force_quirks(&mut self) {}
}

/// One link, in words: its kind, its href, and its paragraph if it has one.
fn describe(link: &Link) -> String {
    match link {
        Link::Uses(UsedLink { href, path, paragraph }) => {
            assert_eq!(*path, "page.html");
            match paragraph {
                Some(p) => format!("uses {} in {:016x}", href, p.hash),
                None => format!("uses {}", href),
            }
        }
        Link::Defines(DefinedLink { href }) => format!("defines {}", href),
    }
}

struct Parsed {
    links: Vec<String>,
    fed: Vec<String>,
}

/// Tokenizes `html` into the extractor, with the buffers given.
fn parse_with(
    buffers: &mut ParserBuffers,
    page: &Page,
    html: &str,
    check_anchors: bool,
    get_paragraphs: bool,
) -> Parsed {
    let arena = Bump::new();
    let mut link_buf = BumpVec::new_in(&arena);
    let log = Rc::new(RefCell::new(Vec::new()));
    let emitter = HyperlinkEmitter {
        paragraph_walker: Walker::new(&log),
        arena: &arena,
        document: page,
        link_buf: &mut link_buf,
        in_paragraph: false,
        last_paragraph_i: 0,
        get_paragraphs,
        buffers,
        current_tag_is_closing: false,
        check_anchors,
    };
    for _ in Tokenizer::new_with_emitter(html, Sink(emitter)).infallible() {}
    let links = link_buf.iter().map(describe).collect();
    let fed = log.borrow().clone();
    Parsed { links, fed }
}

fn parse(html: &str, check_anchors: bool) -> Parsed {
    parse_with(&mut ParserBuffers::new(), &Page::plain(), html, check_anchors, true)
}

fn in_paragraph(href: &str, text: &str) -> String {
    format!("uses {} in {:016x}", href, digest(text.as_bytes()))
}

#[test]
fn absolute_link_is_filtered() {
    let parsed = parse("<a href=\"http://x/\">t</a>", true);
    assert_eq!(parsed.links, Vec::<String>::new());
}

#[test]
fn links_of_a_paragraph_share_its_fingerprint() {
    let parsed = parse("<p><a href=\"foo\">x</a><a href=\"bar\">y</a></p>", true);
    assert_eq!(parsed.links, vec![in_paragraph("foo", "xy"), in_paragraph("bar", "xy")]);
    assert_eq!(parsed.fed.concat(), "xy");
}

#[test]
fn anchors_are_defined_by_name_and_id() {
    let parsed = parse("<a name=\"top\"></a><div id=\"main\"></div>", true);
    assert_eq!(parsed.links, vec!["defines #top", "defines #main"]);
}

#[test]
fn image_set_gives_one_link_per_candidate() {
    let parsed = parse("<img src=\"a.png\" srcset=\"b.png 1x, c.png 2x\">", true);
    assert_eq!(parsed.links, vec!["uses a.png", "uses b.png", "uses c.png"]);
}

#[test]
fn mailto_link_is_filtered() {
    let parsed = parse("<a href=\"mailto:x@y\">", true);
    assert_eq!(parsed.links, Vec::<String>::new());
}

#[test]
fn link_between_paragraphs_has_no_paragraph() {
    let parsed = parse("<p>one</p><a href=\"between\">z</a><p>two</p>", true);
    assert_eq!(parsed.links, vec!["uses between"]);
    assert_eq!(parsed.fed.concat(), "onetwo");
}

#[test]
fn only_the_links_inside_the_paragraph_are_stamped() {
    let parsed = parse(
        "<a href=\"before\">a</a><a name=\"n\"></a><li><a href=\"one\">b</a><a id=\"i\" href=\"two\">c</a></li><a href=\"after\">d</a>",
        true,
    );
    assert_eq!(
        parsed.links,
        vec![
            String::from("uses before"),
            String::from("defines #n"),
            in_paragraph("one", "bc"),
            String::from("defines #i"),
            in_paragraph("two", "bc"),
            String::from("uses after"),
        ]
    );
    assert_eq!(parsed.fed.concat(), "bc");
}

#[test]
fn stray_end_tag_stamps_nothing() {
    let parsed = parse("<p><a href=\"in\">x</a></p><a href=\"out\">y</a></p>", true);
    assert_eq!(parsed.links, vec![in_paragraph("in", "x"), String::from("uses out")]);
}

#[test]
fn self_closing_paragraph_stamps_nothing() {
    let parsed = parse("<a href=\"one\">x</a><p/><a href=\"two\">y</a>", true);
    assert_eq!(parsed.links, vec!["uses one", "uses two"]);
    let inside = parse("<p><a href=\"one\">x</a><p/><a href=\"two\">y</a>", true);
    assert_eq!(inside.links, vec!["uses one", "uses two"]);
}

#[test]
fn paragraph_without_text_has_no_fingerprint() {
    let parsed = parse("<dt><a href=\"x\"></a></dt><dd><a href=\"y\">t</a></dd>", true);
    assert_eq!(parsed.links, vec![String::from("uses x"), in_paragraph("y", "t")]);
}

#[test]
fn text_is_dropped_when_paragraphs_are_not_wanted() {
    let parsed = parse_with(
        &mut ParserBuffers::new(),
        &Page::plain(),
        "<p><a href=\"foo\">x</a></p>",
        true,
        false,
    );
    assert_eq!(parsed.links, vec!["uses foo"]);
    assert_eq!(parsed.fed, Vec::<String>::new());
}

#[test]
fn every_row_of_the_table_gives_its_record() {
    let html = "<link href=\"l\"><area href=\"r\"><a href=\"a\" name=\"n\" id=\"i\"></a>\
                <img src=\"i.png\" srcset=\"s.png\"><script src=\"s.js\"></script>\
                <iframe src=\"f\"></iframe><object data=\"o\" id=\"oid\"></object>";
    let parsed = parse(html, true);
    assert_eq!(
        parsed.links,
        vec![
            "uses l",
            "uses r",
            "uses a",
            "defines #n",
            "defines #i",
            "uses i.png",
            "uses s.png",
            "uses s.js",
            "uses f",
            "uses o",
            "defines #oid",
        ]
    );
}

#[test]
fn other_attributes_give_no_record() {
    let html = "<div href=\"x\" src=\"y\" data=\"z\" name=\"n\" srcset=\"s\"></div>\
                <a src=\"x\" data=\"y\" title=\"t\"></a><img href=\"x\" alt=\"a\">\
                <script href=\"x\"></script><object src=\"x\" href=\"y\"></object>";
    let parsed = parse(html, true);
    assert_eq!(parsed.links, Vec::<String>::new());
}

#[test]
fn values_are_trimmed_before_they_are_screened() {
    let parsed = parse("<a href=\"  foo \"></a><a href=\" http://x \"></a><a id=\" top \"></a>", true);
    assert_eq!(parsed.links, vec!["uses foo", "defines #top"]);
}

#[test]
fn empty_values_pass_through() {
    let parsed = parse("<a href=\"\"></a><a href=\"  \"></a><a id></a>", true);
    assert_eq!(parsed.links, vec!["uses ", "uses ", "defines #"]);
}

#[test]
fn bad_schemes_are_screened_inside_an_image_set() {
    let parsed = parse("<img srcset=\"a.png 1x, //cdn/b.png 2x, data:x,y 3x, , c.png\">", true);
    assert_eq!(parsed.links, vec!["uses a.png", "uses y", "uses c.png"]);
}

#[test]
fn without_anchor_checks_nothing_is_defined() {
    let html = "<a name=\"top\" id=\"t\" href=\"x#y\"></a><div id=\"main\"></div><img srcset=\"a#b, c\">";
    let page = Page::flagged();
    let plain = parse_with(&mut ParserBuffers::new(), &page, html, false, true);
    assert_eq!(plain.links, vec!["uses plain:x#y", "uses plain:a#b", "uses plain:c"]);
    let checked = parse_with(&mut ParserBuffers::new(), &page, html, true, true);
    assert_eq!(
        checked.links,
        vec![
            "defines anchors:#top",
            "defines anchors:#t",
            "uses anchors:x#y",
            "defines anchors:#main",
            "uses anchors:a#b",
            "uses anchors:c",
        ]
    );
}

#[test]
fn reset_buffers_parse_as_fresh_ones_do() {
    let html = "<p><a href=\"foo\" id=\"i\">x</a><img srcset=\"a, b\"></p><script src=\"s.js\"></script>";
    let fresh = parse(html, true);
    let mut buffers = ParserBuffers::new();
    let first = parse_with(&mut buffers, &Page::plain(), "<a href=\"cut", true, true);
    assert_eq!(first.links, Vec::<String>::new());
    let dirty = &buffers;
    assert!(
        !dirty.current_tag_name.is_empty()
            || !dirty.current_attribute_name.is_empty()
            || !dirty.current_attribute_value.is_empty()
            || !dirty.last_start_tag.is_empty()
    );
    buffers.reset();
    let second = parse_with(&mut buffers, &Page::plain(), html, true, true);
    assert_eq!(second.links, fresh.links);
    assert_eq!(second.fed, fresh.fed);
    assert_eq!(fresh.links.len(), 5);
}

#[test]
fn appropriate_end_tag_is_the_last_start_tag() {
    let page = Page::plain();
    let arena = Bump::new();
    let mut link_buf = BumpVec::new_in(&arena);
    let mut buffers = ParserBuffers::new();
    let log = Rc::new(RefCell::new(Vec::new()));
    let mut emitter = HyperlinkEmitter {
        paragraph_walker: Walker::new(&log),
        arena: &arena,
        document: &page,
        link_buf: &mut link_buf,
        in_paragraph: false,
        last_paragraph_i: 0,
        get_paragraphs: true,
        buffers: &mut buffers,
        current_tag_is_closing: false,
        check_anchors: true,
    };
    emitter.init_end_tag();
    assert!(!emitter.current_is_appropriate_end_tag_token());
    emitter.set_last_start_tag(Some("script"));
    assert_eq!(emitter.buffers.last_start_tag, "script");
    emitter.push_tag_name("scr");
    assert!(!emitter.current_is_appropriate_end_tag_token());
    emitter.push_tag_name("ipt");
    assert!(emitter.current_is_appropriate_end_tag_token());
    emitter.init_start_tag();
    emitter.push_tag_name("script");
    assert!(!emitter.current_is_appropriate_end_tag_token());
    emitter.init_end_tag();
    emitter.set_last_start_tag(None);
    assert_eq!(emitter.buffers.last_start_tag, "");
    assert!(!emitter.current_is_appropriate_end_tag_token());
    emitter.push_tag_name("style");
    emitter.set_last_start_tag(Some("style"));
    assert!(emitter.current_is_appropriate_end_tag_token());
    emitter.emit_current_tag();
    assert_eq!(emitter.buffers.current_tag_name, "");
    assert_eq!(emitter.buffers.last_start_tag, "style");
}

#[test]
fn pushes_fill_the_scratch_strings() {
    let page = Page::plain();
    let arena = Bump::new();
    let mut link_buf = BumpVec::new_in(&arena);
    let mut buffers = ParserBuffers::new();
    let log = Rc::new(RefCell::new(Vec::new()));
    let mut emitter = HyperlinkEmitter {
        paragraph_walker: Walker::new(&log),
        arena: &arena,
        document: &page,
        link_buf: &mut link_buf,
        in_paragraph: false,
        last_paragraph_i: 0,
        get_paragraphs: true,
        buffers: &mut buffers,
        current_tag_is_closing: true,
        check_anchors: true,
    };
    emitter.init_start_tag();
    assert!(!emitter.current_tag_is_closing);
    emitter.push_tag_name("l");
    emitter.push_tag_name("i");
    assert_eq!(emitter.buffers.current_tag_name, "li");
    emitter.init_attribute();
    emitter.push_attribute_name("i");
    emitter.push_attribute_name("d");
    emitter.push_attribute_value(" it");
    emitter.push_attribute_value("em ");
    assert_eq!(emitter.buffers.current_attribute_name, "id");
    assert_eq!(emitter.buffers.current_attribute_value, " item ");
    assert_eq!(emitter.link_buf.len(), 0);
    emitter.init_attribute();
    assert_eq!(emitter.buffers.current_attribute_name, "");
    assert_eq!(emitter.buffers.current_attribute_value, "");
    assert_eq!(emitter.buffers.current_tag_name, "li");
    assert_eq!(emitter.link_buf.len(), 1);
    emitter.emit_string("dropped");
    assert!(!emitter.in_paragraph);
    emitter.emit_current_tag();
    assert!(emitter.in_paragraph);
    assert_eq!(emitter.last_paragraph_i, 1);
    assert_eq!(emitter.buffers.current_tag_name, "");
    assert_eq!(emitter.buffers.last_start_tag, "li");
    emitter.emit_string("kept");
    emitter.init_start_tag();
    emitter.push_tag_name("dd");
    emitter.set_self_closing();
    assert!(!emitter.in_paragraph);
    assert_eq!(emitter.last_paragraph_i, 1);
    emitter.init_start_tag();
    emitter.push_tag_name("br");
    emitter.set_self_closing();
    emitter.emit_current_tag();
    assert!(!emitter.in_paragraph);
    assert_eq!(emitter.buffers.last_start_tag, "br");
    assert_eq!(*log.borrow(), vec![String::from("kept")]);
    let links: Vec<String> = link_buf.iter().map(describe).collect();
    assert_eq!(links, vec!["defines #item"]);
}

#[test]
fn stamping_spares_anchors_and_earlier_links() {
    let arena = Bump::new();
    let mut link_buf = BumpVec::new_in(&arena);
    let used = |href| Link::Uses(UsedLink { href, path: "page.html", paragraph: None });
    link_buf.push(used("a"));
    link_buf.push(Link::Defines(DefinedLink { href: "#b" }));
    link_buf.push(used("c"));
    link_buf.push(Link::Uses(UsedLink {
        href: "d",
        path: "page.html",
        paragraph: Some(Paragraph { hash: 1 }),
    }));
    stamp_links(&mut link_buf, 1, Some(Paragraph { hash: 7 }));
    let stamped = |href| {
        Link::Uses(UsedLink { href, path: "page.html", paragraph: Some(Paragraph { hash: 7 }) })
    };
    assert_eq!(
        link_buf.as_slice(),
        &[used("a"), Link::Defines(DefinedLink { href: "#b" }), stamped("c"), stamped("d")]
    );
    stamp_links(&mut link_buf, 4, None);
    assert_eq!(link_buf[3], stamped("d"));
    stamp_links(&mut link_buf, 0, None);
    assert_eq!(
        link_buf.as_slice(),
        &[used("a"), Link::Defines(DefinedLink { href: "#b" }), used("c"), used("d")]
    );
}
