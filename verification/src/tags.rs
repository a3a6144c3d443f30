//! The tags and attributes that matter to the extractor.

use vstd::prelude::*;
use vstd::utf8::*;
use crate::text::{lemma_encoding_is_injective, str_eq};

verus! {

/// ASCII `d`.
pub const LOWER_D: u8 = 100;

/// ASCII `i`.
pub const LOWER_I: u8 = 105;

/// ASCII `l`.
pub const LOWER_L: u8 = 108;

/// ASCII `p`.
pub const LOWER_P: u8 = 112;

/// ASCII `t`.
pub const LOWER_T: u8 = 116;

/// The name of a tag that bounds a paragraph: `p`, `li`, `dt` or `dd`.
pub open spec fn is_paragraph_name(tag: Seq<char>) -> bool {
    tag == "p"@ || tag == "li"@ || tag == "dt"@ || tag == "dd"@
}

/// The bytes of the name of a tag that bounds a paragraph.
pub open spec fn is_paragraph_bytes(tag: Seq<u8>) -> bool {
    ||| tag == seq![LOWER_P]
    ||| tag == seq![LOWER_L, LOWER_I]
    ||| tag == seq![LOWER_D, LOWER_T]
    ||| tag == seq![LOWER_D, LOWER_D]
}

/// A name bounds a paragraph exactly if its UTF-8 encoding spells one of
/// the four names.
pub proof fn lemma_paragraph_name_bytes(tag: Seq<char>)
    ensures
        is_paragraph_bytes(encode_utf8(tag)) == is_paragraph_name(tag),
{
    reveal_strlit("p");
    reveal_strlit("li");
    reveal_strlit("dt");
    reveal_strlit("dd");
    is_ascii_chars_encode_utf8("p"@);
    is_ascii_chars_encode_utf8("li"@);
    is_ascii_chars_encode_utf8("dt"@);
    is_ascii_chars_encode_utf8("dd"@);
    assert(encode_utf8("p"@) =~= seq![LOWER_P]);
    assert(encode_utf8("li"@) =~= seq![LOWER_L, LOWER_I]);
    assert(encode_utf8("dt"@) =~= seq![LOWER_D, LOWER_T]);
    assert(encode_utf8("dd"@) =~= seq![LOWER_D, LOWER_D]);
    if encode_utf8(tag) == encode_utf8("p"@) {
        lemma_encoding_is_injective(tag, "p"@);
    }
    if encode_utf8(tag) == encode_utf8("li"@) {
        lemma_encoding_is_injective(tag, "li"@);
    }
    if encode_utf8(tag) == encode_utf8("dt"@) {
        lemma_encoding_is_injective(tag, "dt"@);
    }
    if encode_utf8(tag) == encode_utf8("dd"@) {
        lemma_encoding_is_injective(tag, "dd"@);
    }
}

/// Whether the bytes are the name of a tag that bounds a paragraph.
pub fn is_paragraph_tag(tag: &[u8]) -> (paragraph: bool)
    ensures
        paragraph == is_paragraph_bytes(tag@),
{
    let n: usize = tag.len();
    if n == 1 {
        let paragraph = tag[0] == LOWER_P;
        assert(paragraph ==> tag@ =~= seq![LOWER_P]);
        paragraph
    } else if n == 2 {
        let first: u8 = tag[0];
        let second: u8 = tag[1];
        let paragraph = (first == LOWER_L && second == LOWER_I) || (first == LOWER_D && (second
            == LOWER_T || second == LOWER_D));
        assert(paragraph ==> tag@ =~= seq![first, second]);
        paragraph
    } else {
        false
    }
}

/// What an attribute of a tag means to the extractor.
#[derive(Clone, Copy, Debug, PartialEq, Eq)]
pub enum AttributeKind {
    /// Its value is one link that the document uses.
    UsedLink,
    /// Its value is a `srcset`: a list of links that the document uses.
    UsedLinkSrcset,
    /// Its value names an anchor that the document defines.
    AnchorDef,
    /// It carries no link.
    Other,
}

/// The meaning of attribute `name` on tag `tag`. The rows are tried in
/// order, so that `id` counts only where no earlier row does.
pub open spec fn classify(tag: Seq<char>, name: Seq<char>) -> AttributeKind {
    if (tag == "link"@ || tag == "area"@ || tag == "a"@) && name == "href"@ {
        AttributeKind::UsedLink
    } else if tag == "a"@ && name == "name"@ {
        AttributeKind::AnchorDef
    } else if (tag == "img"@ || tag == "script"@ || tag == "iframe"@) && name == "src"@ {
        AttributeKind::UsedLink
    } else if tag == "img"@ && name == "srcset"@ {
        AttributeKind::UsedLinkSrcset
    } else if tag == "object"@ && name == "data"@ {
        AttributeKind::UsedLink
    } else if name == "id"@ {
        AttributeKind::AnchorDef
    } else {
        AttributeKind::Other
    }
}

/// Classifies an attribute by the tag that carries it and by its name.
pub fn classify_attribute(tag: &str, name: &str) -> (kind: AttributeKind)
    ensures
        kind == classify(tag@, name@),
{
    if (str_eq(tag, "link") || str_eq(tag, "area") || str_eq(tag, "a")) && str_eq(name, "href") {
        AttributeKind::UsedLink
    } else if str_eq(tag, "a") && str_eq(name, "name") {
        AttributeKind::AnchorDef
    } else if (str_eq(tag, "img") || str_eq(tag, "script") || str_eq(tag, "iframe")) && str_eq(
        name,
        "src",
    ) {
        AttributeKind::UsedLink
    } else if str_eq(tag, "img") && str_eq(name, "srcset") {
        AttributeKind::UsedLinkSrcset
    } else if str_eq(tag, "object") && str_eq(name, "data") {
        AttributeKind::UsedLink
    } else if str_eq(name, "id") {
        AttributeKind::AnchorDef
    } else {
        AttributeKind::Other
    }
}

} // verus!
