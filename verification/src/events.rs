//! The structural event stream of one chapter, reduced to what the
//! skip-zone tracker needs: for each markdown event, whether it opens or
//! closes a skip zone (code block, heading, link or image), whether it is a
//! text node, and the byte range it covers in the source.
use pulldown_cmark::{Event, Options, Parser, Tag};
use vstd::prelude::*;

verus! {

/// How one structural event affects scanning.
#[derive(Clone, Copy)]
pub enum EventKind {
    /// Start of a code block, heading, link or image.
    SkipStart,
    /// End of a code block, heading, link or image.
    SkipEnd,
    /// A text node.
    Text,
    /// Anything else.
    Other,
}

/// One structural event with the byte range it covers in the source.
#[derive(Clone, Copy)]
pub struct MdEvent {
    pub kind: EventKind,
    pub start: usize,
    pub end: usize,
}

/// The structural events of a markdown document, in document order, as the
/// markdown parser reports them (with tables, footnotes, strikethrough and
/// task lists enabled); empty when the bytes are not valid UTF-8. The
/// parse is a pure function of the bytes alone.
pub uninterp spec fn md_events_of(s: Seq<u8>) -> Seq<MdEvent>;

/// Relies on pulldown_cmark::Parser::new_ext with its offset iterator: it
/// yields each markdown event together with the byte range of the
/// corresponding text in the source, in document order, deterministically.
#[verifier::external_body]
pub(crate) fn parse_events(content: &[u8]) -> (r: Vec<MdEvent>)
    ensures
        r@ == md_events_of(content@),
{
    let Ok(s) = core::str::from_utf8(content) else { return Vec::new() };
    let opts = Options::ENABLE_TABLES | Options::ENABLE_FOOTNOTES
        | Options::ENABLE_STRIKETHROUGH | Options::ENABLE_TASKLISTS;
    let mut out = Vec::new();
    for (ev, range) in Parser::new_ext(s, opts).into_offset_iter() {
        let kind = match ev {
            Event::Start(Tag::CodeBlock(_) | Tag::Heading(..) | Tag::Link(..) | Tag::Image(..)) => EventKind::SkipStart,
            Event::End(Tag::CodeBlock(_) | Tag::Heading(..) | Tag::Link(..) | Tag::Image(..)) => EventKind::SkipEnd,
            Event::Text(_) => EventKind::Text,
            _ => EventKind::Other,
        };
        out.push(MdEvent { kind, start: range.start, end: range.end });
    }
    out
}

} // verus!
