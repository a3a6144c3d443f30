//! Text helpers for attribute values: whitespace, trimming, comparison and
//! the splitting of a `srcset` value into its URLs.

use vstd::prelude::*;
use vstd::std_specs::iter::IteratorSpec;
use vstd::string::*;
use vstd::utf8::*;

verus! {

/// Whether a character has the Unicode `White_Space` property, as
/// `char::is_whitespace` reports it.
pub uninterp spec fn white_space(c: char) -> bool;

/// Calls `char::is_whitespace`. The result is a function of the character
/// alone; the contract gives that function its name and claims nothing else.
#[verifier::external_body]
fn is_whitespace(c: char) -> (w: bool)
    ensures
        w == white_space(c),
{
    c.is_whitespace()
}

/// The text without its leading whitespace.
pub open spec fn without_leading_space(s: Seq<char>) -> Seq<char>
    decreases s.len(),
{
    if s.len() > 0 && white_space(s[0]) {
        without_leading_space(s.drop_first())
    } else {
        s
    }
}

/// The text without its trailing whitespace.
pub open spec fn without_trailing_space(s: Seq<char>) -> Seq<char>
    decreases s.len(),
{
    if s.len() > 0 && white_space(s.last()) {
        without_trailing_space(s.drop_last())
    } else {
        s
    }
}

/// The text with leading and trailing whitespace removed.
pub open spec fn trimmed(s: Seq<char>) -> Seq<char> {
    without_trailing_space(without_leading_space(s))
}

/// Calls `str::trim`, which returns the slice with leading and trailing
/// whitespace removed, whitespace being the `White_Space` property that
/// `char::is_whitespace` tests.
#[verifier::external_body]
fn trim_str<'a>(s: &'a str) -> (t: &'a str)
    ensures
        t@ == trimmed(s@),
{
    s.trim()
}

/// Normalises a raw attribute value before it is screened and resolved.
pub fn try_normalize_href_value<'a>(input: &'a str) -> (value: &'a str)
    ensures
        value@ == trimmed(input@),
{
    trim_str(input)
}

/// Two texts with the same UTF-8 encoding are the same text.
pub proof fn lemma_encoding_is_injective(a: Seq<char>, b: Seq<char>)
    requires
        encode_utf8(a) == encode_utf8(b),
    ensures
        a == b,
{
    encode_utf8_decode_utf8(a);
    encode_utf8_decode_utf8(b);
}

/// Compares two byte strings.
pub fn bytes_eq(a: &[u8], b: &[u8]) -> (same: bool)
    ensures
        same == (a@ == b@),
{
    let n: usize = a.len();
    if n != b.len() {
        return false;
    }
    let mut i: usize = 0;
    while i < n
        invariant
            i <= n,
            n == a@.len(),
            n == b@.len(),
            forall|j: int| 0 <= j < i ==> a@[j] == b@[j],
        decreases n - i,
    {
        if a[i] != b[i] {
            return false;
        }
        i += 1;
    }
    assert(a@ =~= b@);
    true
}

/// Compares two texts, byte for byte.
pub fn str_eq(a: &str, b: &str) -> (same: bool)
    ensures
        same == (a@ == b@),
{
    let same = bytes_eq(a.as_bytes(), b.as_bytes());
    proof {
        if same {
            lemma_encoding_is_injective(a@, b@);
        }
    }
    same
}

/// How many characters stand between `from` and the next comma, or the end.
pub open spec fn comma_distance(s: Seq<char>, from: int) -> nat
    decreases s.len() - from,
{
    if 0 <= from < s.len() && s[from] != ',' {
        1 + comma_distance(s, from + 1)
    } else {
        0
    }
}

/// The first position in `from..to` that holds no whitespace, or `to`.
pub open spec fn skip_space(s: Seq<char>, from: int, to: int) -> int
    decreases to - from,
{
    if 0 <= from < to && to <= s.len() && white_space(s[from]) {
        skip_space(s, from + 1, to)
    } else {
        from
    }
}

/// The first position in `from..to` that holds whitespace, or `to`.
pub open spec fn skip_token(s: Seq<char>, from: int, to: int) -> int
    decreases to - from,
{
    if 0 <= from < to && to <= s.len() && !white_space(s[from]) {
        skip_token(s, from + 1, to)
    } else {
        from
    }
}

/// The URLs of the candidates that start at or after `from`. A candidate
/// runs up to the next comma; its URL is its first run of characters that
/// are not whitespace; a candidate without one gives nothing.
pub open spec fn srcset_urls_from(s: Seq<char>, from: int) -> Seq<Seq<char>>
    decreases s.len() - from,
{
    if from < 0 || from > s.len() {
        Seq::empty()
    } else {
        let end = from + comma_distance(s, from);
        let start = skip_space(s, from, end);
        let stop = skip_token(s, start, end);
        let head = if start < stop {
            seq![s.subrange(start, stop)]
        } else {
            Seq::empty()
        };
        if end < s.len() {
            head + srcset_urls_from(s, end + 1)
        } else {
            head
        }
    }
}

/// The URL of every image candidate of a `srcset` value, in order.
pub open spec fn srcset_urls(s: Seq<char>) -> Seq<Seq<char>> {
    srcset_urls_from(s, 0)
}

/// The texts that a list of string slices holds.
pub open spec fn texts(v: Seq<&str>) -> Seq<Seq<char>> {
    Seq::new(v.len(), |i: int| v[i]@)
}

proof fn lemma_comma_distance(s: Seq<char>, from: int, end: int)
    requires
        0 <= from <= end <= s.len(),
        forall|j: int| from <= j < end ==> s[j] != ',',
        end == s.len() || s[end] == ',',
    ensures
        from + comma_distance(s, from) == end,
    decreases end - from,
{
    if from < end {
        lemma_comma_distance(s, from + 1, end);
    }
}

proof fn lemma_skip_space(s: Seq<char>, from: int, stop: int, to: int)
    requires
        0 <= from <= stop <= to <= s.len(),
        forall|j: int| from <= j < stop ==> white_space(s[j]),
        stop == to || !white_space(s[stop]),
    ensures
        skip_space(s, from, to) == stop,
    decreases stop - from,
{
    if from < stop {
        lemma_skip_space(s, from + 1, stop, to);
    }
}

proof fn lemma_skip_token(s: Seq<char>, from: int, stop: int, to: int)
    requires
        0 <= from <= stop <= to <= s.len(),
        forall|j: int| from <= j < stop ==> !white_space(s[j]),
        stop == to || white_space(s[stop]),
    ensures
        skip_token(s, from, to) == stop,
    decreases stop - from,
{
    if from < stop {
        lemma_skip_token(s, from + 1, stop, to);
    }
}

/// Where the scan of one candidate stands.
enum Scan {
    /// Only whitespace so far.
    Leading,
    /// Inside the URL, which began at the position held.
    Token(usize),
    /// Past the URL, which fills the range held.
    Done(usize, usize),
}

impl Scan {
    /// What the scan knows of the candidate `pos..i`.
    spec fn describes(self, s: Seq<char>, pos: int, i: int) -> bool {
        match self {
            Scan::Leading => forall|j: int| pos <= j < i ==> white_space(s[j]),
            Scan::Token(start) => {
                &&& pos <= start < i
                &&& forall|j: int| pos <= j < start ==> white_space(s[j])
                &&& forall|j: int| start <= j < i ==> !white_space(s[j])
            },
            Scan::Done(start, stop) => {
                &&& pos <= start < stop < i
                &&& forall|j: int| pos <= j < start ==> white_space(s[j])
                &&& forall|j: int| start <= j < stop ==> !white_space(s[j])
                &&& white_space(s[stop as int])
            },
        }
    }

    /// The URL of the candidate `pos..end`, if it has one.
    spec fn found(self, s: Seq<char>, end: int) -> Seq<Seq<char>> {
        match self {
            Scan::Leading => Seq::empty(),
            Scan::Token(start) => seq![s.subrange(start as int, end)],
            Scan::Done(start, stop) => seq![s.subrange(start as int, stop as int)],
        }
    }
}

/// At the end of a candidate the scan has found what the definition names.
proof fn lemma_candidate(scan: Scan, s: Seq<char>, pos: int, end: int)
    requires
        0 <= pos <= end <= s.len(),
        scan.describes(s, pos, end),
        forall|j: int| pos <= j < end ==> s[j] != ',',
        end == s.len() || s[end] == ',',
    ensures
        srcset_urls_from(s, pos) == scan.found(s, end) + if end < s.len() {
            srcset_urls_from(s, end + 1)
        } else {
            Seq::empty()
        },
{
    lemma_comma_distance(s, pos, end);
    match scan {
        Scan::Leading => {
            lemma_skip_space(s, pos, end, end);
            lemma_skip_token(s, end, end, end);
        },
        Scan::Token(start) => {
            lemma_skip_space(s, pos, start as int, end);
            lemma_skip_token(s, start as int, end, end);
        },
        Scan::Done(start, stop) => {
            lemma_skip_space(s, pos, start as int, end);
            lemma_skip_token(s, start as int, stop as int, end);
        },
    }
    let tail = if end < s.len() {
        srcset_urls_from(s, end + 1)
    } else {
        Seq::empty()
    };
    assert(srcset_urls_from(s, pos) =~= scan.found(s, end) + tail);
}

/// Appends the URL that a finished scan has found, if any.
fn push_found<'a>(urls: &mut Vec<&'a str>, value: &'a str, scan: Scan, end: usize)
    requires
        end <= value@.len(),
        match scan {
            Scan::Leading => true,
            Scan::Token(start) => start <= end,
            Scan::Done(start, stop) => start <= stop <= end,
        },
    ensures
        texts(final(urls)@) == texts(old(urls)@) + scan.found(value@, end as int),
{
    match scan {
        Scan::Leading => {
            assert(texts(urls@) =~= texts(urls@) + scan.found(value@, end as int));
        },
        Scan::Token(start) => {
            let url = value.substring_char(start, end);
            urls.push(url);
            assert(texts(urls@) =~= texts(old(urls)@) + scan.found(value@, end as int));
        },
        Scan::Done(start, stop) => {
            let url = value.substring_char(start, stop);
            urls.push(url);
            assert(texts(urls@) =~= texts(old(urls)@) + scan.found(value@, end as int));
        },
    }
}

/// Splits a `srcset` value into the URLs of its image candidates.
pub fn split_srcset<'a>(value: &'a str) -> (urls: Vec<&'a str>)
    ensures
        texts(urls@) == srcset_urls(value@),
{
    broadcast use group_string_axioms;

    let n: usize = value.unicode_len();
    let mut urls: Vec<&'a str> = Vec::new();
    let mut chars = value.chars();
    let mut i: usize = 0;
    let mut pos: usize = 0;
    let mut scan = Scan::Leading;
    assert(texts(urls@) =~= Seq::<Seq<char>>::empty());
    loop
        invariant
            n == value@.len(),
            pos <= i <= n,
            chars.remaining() == value@.skip(i as int),
            scan.describes(value@, pos as int, i as int),
            forall|j: int| pos <= j < i ==> value@[j] != ',',
            srcset_urls(value@) == texts(urls@) + srcset_urls_from(value@, pos as int),
        decreases n - i,
    {
        let ghost before = texts(urls@);
        match chars.next() {
            None => {
                assert(i == n);
                proof {
                    lemma_candidate(scan, value@, pos as int, n as int);
                }
                push_found(&mut urls, value, scan, n);
                assert(texts(urls@) =~= before + srcset_urls_from(value@, pos as int));
                return urls;
            },
            Some(c) => {
                assert(i < n);
                assert(c == value@[i as int]);
                if c == ',' {
                    proof {
                        lemma_candidate(scan, value@, pos as int, i as int);
                    }
                    push_found(&mut urls, value, scan, i);
                    assert(srcset_urls(value@) =~= texts(urls@) + srcset_urls_from(
                        value@,
                        i + 1,
                    ));
                    pos = i + 1;
                    scan = Scan::Leading;
                } else {
                    let space = is_whitespace(c);
                    scan = match scan {
                        Scan::Leading => if space {
                            Scan::Leading
                        } else {
                            Scan::Token(i)
                        },
                        Scan::Token(start) => if space {
                            Scan::Done(start, i)
                        } else {
                            Scan::Token(start)
                        },
                        Scan::Done(start, stop) => Scan::Done(start, stop),
                    };
                }
                i += 1;
            },
        }
    }
}

} // verus!
