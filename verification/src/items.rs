//! The extractor's data model: what it reads of a tree node, the Enter/Exit
//! events of a document-order traversal, and the content items (text runs and
//! break markers) that classification derives from those events.

use vstd::prelude::*;

use crate::blocks::{is_block_element, is_block_tag};
use crate::text::{is_whitespace_only, str_eq, whitespace_only};

verus! {

/// What the extractor reads of a single tree node: an element's tag name, a
/// text node's content, or nothing (documents, comments, doctypes and the
/// like all classify as `Other`).
pub enum NodeData {
    Element { tag: String },
    Text { content: String },
    Other,
}

/// One event of a depth-first, document-order walk of a subtree: `Enter` when
/// a node is first visited, `Exit` when it is left after its children. The
/// root itself appears as the first `Enter` and the last `Exit`.
pub enum Event {
    Enter(NodeData),
    Exit(NodeData),
}

/// A content item derived from the traversal: a literal text run, kept
/// verbatim, or a break marker carrying how many newlines it would insert.
pub enum Item {
    Run(String),
    Breaks(usize),
}

/// The item contributed by entering a node: a non-whitespace-only text node
/// yields its content as a run; `br` yields a one-newline break, `p` a
/// two-newline break, any other block-level element a one-newline break;
/// everything else yields nothing.
pub open spec fn enter_item(n: NodeData) -> Option<Item> {
    match n {
        NodeData::Text { content } => if whitespace_only(content@) {
            None
        } else {
            Some(Item::Run(content))
        },
        NodeData::Element { tag } => if tag@ == "br"@ {
            Some(Item::Breaks(1))
        } else if tag@ == "p"@ {
            Some(Item::Breaks(2))
        } else if is_block_tag(tag@) {
            Some(Item::Breaks(1))
        } else {
            None
        },
        NodeData::Other => None,
    }
}

/// The item contributed by leaving a node: `p` yields a two-newline break,
/// any other block-level element a one-newline break; everything else yields
/// nothing.
pub open spec fn exit_item(n: NodeData) -> Option<Item> {
    match n {
        NodeData::Element { tag } => if tag@ == "p"@ {
            Some(Item::Breaks(2))
        } else if is_block_tag(tag@) {
            Some(Item::Breaks(1))
        } else {
            None
        },
        _ => None,
    }
}

/// The item contributed by one traversal event.
pub open spec fn event_item(e: Event) -> Option<Item> {
    match e {
        Event::Enter(n) => enter_item(n),
        Event::Exit(n) => exit_item(n),
    }
}

/// The item sequence of one event: empty or a single item.
pub open spec fn opt_items(o: Option<Item>) -> Seq<Item> {
    match o {
        Some(item) => seq![item],
        None => Seq::empty(),
    }
}

/// The content items derived from a traversal, in document order.
pub open spec fn items_of(events: Seq<Event>) -> Seq<Item>
    decreases events.len(),
{
    if events.len() == 0 {
        Seq::empty()
    } else {
        opt_items(event_item(events[0])) + items_of(events.drop_first())
    }
}

/// Classification distributes over concatenation of event sequences.
pub proof fn lemma_items_of_concat(a: Seq<Event>, b: Seq<Event>)
    ensures
        items_of(a + b) == items_of(a) + items_of(b),
    decreases a.len(),
{
    if a.len() == 0 {
        assert(a + b =~= b);
        assert(items_of(a) + items_of(b) =~= items_of(b));
    } else {
        assert((a + b).drop_first() =~= a.drop_first() + b);
        lemma_items_of_concat(a.drop_first(), b);
        assert((a + b)[0] == a[0]);
        assert(items_of(a + b) =~= items_of(a) + items_of(b));
    }
}

/// The items of a single event.
pub proof fn lemma_items_of_single(e: Event)
    ensures
        items_of(seq![e]) == opt_items(event_item(e)),
{
    assert(seq![e].drop_first() =~= Seq::<Event>::empty());
    assert(items_of(Seq::<Event>::empty()) =~= Seq::<Item>::empty());
    assert(items_of(seq![e]) == opt_items(event_item(e)) + items_of(seq![e].drop_first()));
    assert(opt_items(event_item(e)) + Seq::<Item>::empty() =~= opt_items(event_item(e)));
}

/// Peeling the first event off a traversal prepends its items.
pub proof fn lemma_items_of_cons(e: Event, rest: Seq<Event>)
    ensures
        items_of(seq![e] + rest) == opt_items(event_item(e)) + items_of(rest),
{
    assert((seq![e] + rest)[0] == e);
    assert((seq![e] + rest).drop_first() =~= rest);
}

/// Extending a prefix of a traversal by one event appends that event's items.
pub proof fn lemma_items_of_snoc(events: Seq<Event>, i: int)
    requires
        0 <= i < events.len(),
    ensures
        items_of(events.take(i + 1)) == items_of(events.take(i)) + opt_items(
            event_item(events[i]),
        ),
{
    assert(events.take(i + 1) =~= events.take(i) + seq![events[i]]);
    lemma_items_of_concat(events.take(i), seq![events[i]]);
    let single = seq![events[i]];
    assert(single.drop_first() =~= Seq::<Event>::empty());
    assert(items_of(Seq::<Event>::empty()) =~= Seq::<Item>::empty());
    assert(items_of(single) == opt_items(event_item(single[0])) + items_of(single.drop_first()));
    assert(items_of(single) =~= opt_items(event_item(events[i])));
}

fn classify_enter(n: &NodeData) -> (r: Option<Item>)
    ensures
        r == enter_item(*n),
{
    match n {
        NodeData::Text { content } => if is_whitespace_only(content.as_str()) {
            None
        } else {
            Some(Item::Run(content.clone()))
        },
        NodeData::Element { tag } => if str_eq(tag.as_str(), "br") {
            Some(Item::Breaks(1))
        } else if str_eq(tag.as_str(), "p") {
            Some(Item::Breaks(2))
        } else if is_block_element(tag.as_str()) {
            Some(Item::Breaks(1))
        } else {
            None
        },
        NodeData::Other => None,
    }
}

fn classify_exit(n: &NodeData) -> (r: Option<Item>)
    ensures
        r == exit_item(*n),
{
    match n {
        NodeData::Element { tag } => if str_eq(tag.as_str(), "p") {
            Some(Item::Breaks(2))
        } else if is_block_element(tag.as_str()) {
            Some(Item::Breaks(1))
        } else {
            None
        },
        _ => None,
    }
}

/// The item, if any, that one traversal event contributes.
pub fn classify_event(e: &Event) -> (r: Option<Item>)
    ensures
        r == event_item(*e),
{
    match e {
        Event::Enter(n) => classify_enter(n),
        Event::Exit(n) => classify_exit(n),
    }
}

/// Materialises the content items of a traversal, in order.
pub fn collect_items(events: &Vec<Event>) -> (items: Vec<Item>)
    ensures
        items@ == items_of(events@),
{
    let mut items: Vec<Item> = Vec::new();
    let mut i: usize = 0;
    while i < events.len()
        invariant
            0 <= i <= events@.len(),
            items@ == items_of(events@.take(i as int)),
        decreases events@.len() - i,
    {
        proof {
            lemma_items_of_snoc(events@, i as int);
        }
        match classify_event(&events[i]) {
            Some(item) => {
                items.push(item);
                assert(items@ =~= items_of(events@.take(i as int)) + opt_items(
                    event_item(events@[i as int]),
                ));
            },
            None => {
                assert(items@ =~= items_of(events@.take(i as int)) + opt_items(
                    event_item(events@[i as int]),
                ));
            },
        }
        i += 1;
    }
    proof {
        assert(events@.take(events@.len() as int) =~= events@);
    }
    items
}

} // verus!
