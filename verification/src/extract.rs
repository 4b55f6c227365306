//! The extraction entry points: folding the classified items of a traversal
//! into the final plain-text string, and the trusted bridge to the HTML
//! parser that produces the traversal for a markup fragment.

use vstd::prelude::*;

use crate::fold::{fold_items, render_items};
use crate::items::{collect_items, items_of, Event, NodeData};

verus! {

/// The plain text of a traversal: its content items, folded with nothing
/// appended yet, so that break groups at either boundary are dropped.
pub open spec fn extract_spec(events: Seq<Event>) -> Seq<char> {
    fold_items(items_of(events), false)
}

/// Extracts the plain text of the subtree whose document-order traversal is
/// `events`. Total: every event sequence yields a (possibly empty) string.
pub fn extract(events: &Vec<Event>) -> (out: String)
    ensures
        out@ == extract_spec(events@),
{
    let items = collect_items(events);
    render_items(&items)
}

/// The document-order traversal of the root element of `html`, parsed as an
/// HTML fragment: a pure function of the markup alone.
pub uninterp spec fn fragment_events(html: Seq<char>) -> Seq<Event>;

/// Relies on `scraper::Html::parse_fragment`, `scraper::Html::root_element`
/// and `ego_tree::NodeRef::traverse`: parsing a fragment never fails (the
/// parser recovers from malformed markup and always hands back a well-formed
/// tree whose root is an element), and walking that tree in document order
/// yields an `Open`/`Close` event pair per node, the root's outermost. Both
/// are deterministic in the markup alone.
#[verifier::external_body]
fn parse_fragment_events(html: &str) -> (events: Vec<Event>)
    ensures
        events@ == fragment_events(html@),
{
    let document = scraper::Html::parse_fragment(html);
    let mut events = Vec::new();
    for edge in document.root_element().traverse() {
        let (node, enter) = match edge {
            ego_tree::iter::Edge::Open(n) => (n, true),
            ego_tree::iter::Edge::Close(n) => (n, false),
        };
        let data = match node.value() {
            scraper::Node::Element(element) => NodeData::Element { tag: element.name().to_string() },
            scraper::Node::Text(text) => NodeData::Text { content: (**text).to_string() },
            _ => NodeData::Other,
        };
        events.push(if enter { Event::Enter(data) } else { Event::Exit(data) });
    }
    events
}

/// Parses `html` as a fragment and extracts its plain text: text runs kept
/// verbatim (entity-decoded by the parser), block-element boundaries merged
/// into newline groups, boundary groups dropped.
pub fn html_to_plain(html: &str) -> (out: String)
    ensures
        out@ == extract_spec(fragment_events(html@)),
{
    let events = parse_fragment_events(html);
    extract(&events)
}

} // verus!
