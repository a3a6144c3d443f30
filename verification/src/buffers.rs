//! Scratch strings that a parse fills as the tokenizer pushes pieces of a tag.

use vstd::prelude::*;

verus! {

/// Calls `String::clear`, which removes all contents of the string.
#[verifier::external_body]
pub(crate) fn clear_string(s: &mut String)
    ensures
        final(s)@ == Seq::<char>::empty(),
{
    s.clear()
}

/// The four strings that the tokenizer's pushes assemble. One value serves
/// many documents: it is reset between them.
pub struct ParserBuffers {
    /// Name of the tag that is being assembled.
    pub current_tag_name: String,
    /// Name of the attribute that is being assembled.
    pub current_attribute_name: String,
    /// Value of the attribute that is being assembled.
    pub current_attribute_value: String,
    /// Name of the start tag that was emitted last.
    pub last_start_tag: String,
}

/// What the four strings hold.
pub struct BuffersView {
    pub current_tag_name: Seq<char>,
    pub current_attribute_name: Seq<char>,
    pub current_attribute_value: Seq<char>,
    pub last_start_tag: Seq<char>,
}

impl BuffersView {
    /// Four empty strings.
    pub open spec fn empty() -> BuffersView {
        BuffersView {
            current_tag_name: Seq::empty(),
            current_attribute_name: Seq::empty(),
            current_attribute_value: Seq::empty(),
            last_start_tag: Seq::empty(),
        }
    }
}

impl View for ParserBuffers {
    type V = BuffersView;

    open spec fn view(&self) -> BuffersView {
        BuffersView {
            current_tag_name: self.current_tag_name@,
            current_attribute_name: self.current_attribute_name@,
            current_attribute_value: self.current_attribute_value@,
            last_start_tag: self.last_start_tag@,
        }
    }
}

impl ParserBuffers {
    /// Fresh, empty buffers.
    pub fn new() -> (buffers: ParserBuffers)
        ensures
            buffers@ == BuffersView::empty(),
    {
        ParserBuffers {
            current_tag_name: String::new(),
            current_attribute_name: String::new(),
            current_attribute_value: String::new(),
            last_start_tag: String::new(),
        }
    }

    /// Empties all four strings, so that the next document starts as a
    /// first one would.
    pub fn reset(&mut self)
        ensures
            final(self)@ == BuffersView::empty(),
    {
        clear_string(&mut self.current_tag_name);
        clear_string(&mut self.current_attribute_name);
        clear_string(&mut self.current_attribute_value);
        clear_string(&mut self.last_start_tag);
    }
}

impl Default for ParserBuffers {
    fn default() -> (buffers: ParserBuffers)
        ensures
            buffers@ == BuffersView::empty(),
    {
        ParserBuffers::new()
    }
}

} // verus!
