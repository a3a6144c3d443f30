//! The arena of one document and the arena-backed collections that the
//! extractor fills. Everything here states what `bumpalo` does; none of it is
//! proved. Where the arena cannot get memory the process ends inside the
//! call; the contracts speak of the calls that return.

use vstd::prelude::*;
use crate::link::{Link, LinkView};

verus! {

/// `bumpalo::Bump`, the arena that owns every href of one document.
#[verifier::external_type_specification]
#[verifier::external_body]
pub struct ExBump<const MIN_ALIGN: usize>(bumpalo::Bump<MIN_ALIGN>);

/// `bumpalo::collections::Vec`, a growable array in an arena.
#[verifier::external_type_specification]
#[verifier::external_body]
#[verifier::reject_recursive_types(T)]
pub struct ExBumpVec<'bump, T>(bumpalo::collections::Vec<'bump, T>);

/// `bumpalo::collections::String`, a growable string in an arena.
#[verifier::external_type_specification]
#[verifier::external_body]
pub struct ExBumpString<'bump>(bumpalo::collections::String<'bump>);

/// The links that a link buffer holds, first pushed first.
pub uninterp spec fn links(buf: &bumpalo::collections::Vec<Link>) -> Seq<LinkView>;

/// The text that an arena string holds.
pub uninterp spec fn arena_text(s: &bumpalo::collections::String) -> Seq<char>;

/// Calls `Vec::len`, the number of elements in the vector.
#[verifier::external_body]
pub(crate) fn link_count<'a, 'l>(buf: &bumpalo::collections::Vec<'a, Link<'l>>) -> (n: usize)
    ensures
        n == links(buf).len(),
{
    buf.len()
}

/// Calls `Vec::push`, which appends one element to the back of the vector.
#[verifier::external_body]
pub(crate) fn push_link<'a, 'l>(buf: &mut bumpalo::collections::Vec<'a, Link<'l>>, link: Link<'l>)
    ensures
        links(final(buf)) == links(old(buf)).push(link@),
{
    buf.push(link)
}

/// Indexes the vector mutably, through its `DerefMut` to a slice: the
/// reference returned stands for element `i`, and what is written through
/// it is what the vector holds there afterwards; no other element changes.
#[verifier::external_body]
pub(crate) fn link_at_mut<'a, 'l, 'b>(
    buf: &'b mut bumpalo::collections::Vec<'a, Link<'l>>,
    i: usize,
) -> (link: &'b mut Link<'l>)
    requires
        i < links(old(buf)).len(),
    ensures
        (*link)@ == links(old(buf))[i as int],
        links(final(buf)) == links(old(buf)).update(i as int, (*final(link))@),
{
    &mut buf[i]
}

/// Calls `String::new_in`, which makes an empty string in the arena.
#[verifier::external_body]
pub(crate) fn arena_string<'a>(arena: &'a bumpalo::Bump) -> (s: bumpalo::collections::String<'a>)
    ensures
        arena_text(&s) == Seq::<char>::empty(),
{
    bumpalo::collections::String::new_in(arena)
}

/// Calls `String::push`, which appends one character.
#[verifier::external_body]
pub(crate) fn arena_push(s: &mut bumpalo::collections::String, c: char)
    ensures
        arena_text(final(s)) == arena_text(old(s)).push(c),
{
    s.push(c)
}

/// Calls `String::push_str`, which appends a string slice.
#[verifier::external_body]
pub(crate) fn arena_push_str(s: &mut bumpalo::collections::String, tail: &str)
    ensures
        arena_text(final(s)) == arena_text(old(s)) + tail@,
{
    s.push_str(tail)
}

/// Calls `String::as_str`, the slice of the whole string.
#[verifier::external_body]
pub(crate) fn arena_str<'s>(s: &'s bumpalo::collections::String) -> (t: &'s str)
    ensures
        t@ == arena_text(s),
{
    s.as_str()
}

} // verus!
