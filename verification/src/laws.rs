//! General properties of the extractor, proved once and for all: break groups
//! at either boundary of the output vanish, a lone block-level wrapper (or any
//! nest of them) adds no newlines, inline elements are transparent, a single
//! text node comes back verbatim, the breaks at a transition between sibling
//! blocks collapse to the larger count — so sibling paragraphs are joined by
//! exactly two newlines — and a `br` between two text runs inserts exactly
//! one.

use vstd::prelude::*;

use crate::blocks::is_block_tag;
use crate::extract::extract_spec;
use crate::fold::{fold_items, max_count, newlines};
use crate::items::{
    enter_item, event_item, exit_item, items_of, lemma_items_of_concat, lemma_items_of_cons,
    lemma_items_of_single, opt_items, Event, Item, NodeData,
};
use crate::text::whitespace_only;

verus! {

/// A string that is not whitespace-only holds at least one character.
pub proof fn lemma_not_whitespace_only_nonempty(s: Seq<char>)
    requires
        !whitespace_only(s),
    ensures
        s.len() > 0,
{
    if s.len() == 0 {
        assert(whitespace_only(s));
    }
}

/// A break marker before which nothing has been appended contributes nothing:
/// it either merges into the following group or is dropped as a leading group.
pub proof fn lemma_fold_leading_break(n: usize, items: Seq<Item>)
    ensures
        fold_items(seq![Item::Breaks(n)] + items, false) == fold_items(items, false),
    decreases items.len(),
{
    let s = seq![Item::Breaks(n)] + items;
    assert(s[0] == Item::Breaks(n));
    if items.len() == 0 {
        assert(s.len() == 1);
        assert(s.drop_first() =~= Seq::<Item>::empty());
        assert(fold_items(s, false) == fold_items(Seq::<Item>::empty(), false));
    } else {
        assert(s[1] == items[0]);
        if items[0] is Run {
            assert(s.drop_first() =~= items);
            assert(fold_items(s, false) == fold_items(items, false));
        } else {
            let p = items[0]->Breaks_0;
            assert(items[0] == Item::Breaks(p));
            assert(s.skip(2) =~= items.skip(1));
            assert(fold_items(s, false) == fold_items(
                seq![Item::Breaks(max_count(n, p))] + items.skip(1),
                false,
            ));
            lemma_fold_leading_break(max_count(n, p), items.skip(1));
            if items.len() >= 2 && items[1] is Breaks {
                let q = items[1]->Breaks_0;
                assert(items[1] == Item::Breaks(q));
                assert(fold_items(items, false) == fold_items(
                    seq![Item::Breaks(max_count(p, q))] + items.skip(2),
                    false,
                ));
                lemma_fold_leading_break(max_count(p, q), items.skip(2));
                assert(seq![Item::Breaks(q)] + items.skip(2) =~= items.skip(1));
                lemma_fold_leading_break(q, items.skip(2));
            } else {
                assert(items.drop_first() =~= items.skip(1));
                assert(fold_items(items, false) == fold_items(items.skip(1), false));
                assert(seq![Item::Breaks(p)] + items.skip(1) =~= items);
                lemma_fold_leading_break(p, items.skip(1));
            }
        }
    }
}

/// A break marker after which no item follows contributes nothing: it either
/// merges backwards into the group before it or is dropped as a trailing
/// group.
pub proof fn lemma_fold_trailing_break(items: Seq<Item>, n: usize, started: bool)
    ensures
        fold_items(items + seq![Item::Breaks(n)], started) == fold_items(items, started),
    decreases items.len(),
{
    let s = items + seq![Item::Breaks(n)];
    if items.len() == 0 {
        assert(s =~= seq![Item::Breaks(n)]);
        assert(s.len() == 1);
        assert(s[0] == Item::Breaks(n));
        assert(s.drop_first() =~= Seq::<Item>::empty());
        assert(fold_items(s, started) == fold_items(Seq::<Item>::empty(), started));
    } else {
        assert(s[0] == items[0]);
        if items[0] is Run {
            let t = items[0]->Run_0;
            assert(items[0] == Item::Run(t));
            assert(s.drop_first() =~= items.drop_first() + seq![Item::Breaks(n)]);
            lemma_fold_trailing_break(items.drop_first(), n, started || t@.len() > 0);
        } else {
            let p = items[0]->Breaks_0;
            assert(items[0] == Item::Breaks(p));
            if items.len() == 1 {
                assert(s.len() == 2);
                assert(s[1] == Item::Breaks(n));
                let merged = seq![Item::Breaks(max_count(p, n))] + s.skip(2);
                assert(fold_items(s, started) == fold_items(merged, started));
                assert(merged.len() == 1);
                assert(merged[0] == Item::Breaks(max_count(p, n)));
                assert(merged.drop_first() =~= Seq::<Item>::empty());
                assert(fold_items(merged, started) == fold_items(Seq::<Item>::empty(), started));
                assert(items.drop_first() =~= Seq::<Item>::empty());
                assert(fold_items(items, started) == fold_items(Seq::<Item>::empty(), started));
            } else {
                assert(s[1] == items[1]);
                if items[1] is Breaks {
                    let q = items[1]->Breaks_0;
                    assert(items[1] == Item::Breaks(q));
                    let merged = seq![Item::Breaks(max_count(p, q))] + items.skip(2);
                    assert(fold_items(items, started) == fold_items(merged, started));
                    assert(s.skip(2) =~= items.skip(2) + seq![Item::Breaks(n)]);
                    assert(fold_items(s, started) == fold_items(
                        seq![Item::Breaks(max_count(p, q))] + s.skip(2),
                        started,
                    ));
                    lemma_fold_trailing_break(merged, n, started);
                    assert(merged + seq![Item::Breaks(n)] =~= seq![Item::Breaks(max_count(p, q))]
                        + s.skip(2));
                } else {
                    assert(s.drop_first() =~= items.drop_first() + seq![Item::Breaks(n)]);
                    lemma_fold_trailing_break(items.drop_first(), n, started);
                    if started {
                        assert(fold_items(s, started) == newlines(p as int) + fold_items(
                            s.drop_first(),
                            true,
                        ));
                        assert(fold_items(items, started) == newlines(p as int) + fold_items(
                            items.drop_first(),
                            true,
                        ));
                        lemma_fold_trailing_break(items.drop_first(), n, true);
                    }
                }
            }
        }
    }
}

/// Wrapping a traversal in exactly one block-level element — `p` included —
/// changes nothing: the wrapper's breaks sit at the boundaries of the output
/// and are dropped (or merged into groups that are themselves dropped).
pub proof fn lemma_block_wrap(tag: String, inner: Seq<Event>)
    requires
        is_block_tag(tag@),
    ensures
        extract_spec(
            seq![Event::Enter(NodeData::Element { tag })] + inner + seq![
                Event::Exit(NodeData::Element { tag }),
            ],
        ) == extract_spec(inner),
{
    let enter = Event::Enter(NodeData::Element { tag });
    let exit = Event::Exit(NodeData::Element { tag });
    let c1: usize = if tag@ == "br"@ {
        1
    } else if tag@ == "p"@ {
        2
    } else {
        1
    };
    let c2: usize = if tag@ == "p"@ {
        2
    } else {
        1
    };
    assert(event_item(enter) == Some(Item::Breaks(c1)));
    assert(event_item(exit) == Some(Item::Breaks(c2)));
    lemma_items_of_concat(seq![enter] + inner, seq![exit]);
    lemma_items_of_concat(seq![enter], inner);
    lemma_items_of_single(enter);
    lemma_items_of_single(exit);
    let wrapped = seq![enter] + inner + seq![exit];
    assert(items_of(wrapped) =~= (seq![Item::Breaks(c1)] + items_of(inner)) + seq![
        Item::Breaks(c2),
    ]);
    lemma_fold_trailing_break(seq![Item::Breaks(c1)] + items_of(inner), c2, false);
    lemma_fold_leading_break(c1, items_of(inner));
}

/// A traversal holding a single non-whitespace-only text node extracts to
/// exactly that text, with nothing added at either boundary.
pub proof fn lemma_text_only(content: String)
    requires
        !whitespace_only(content@),
    ensures
        extract_spec(
            seq![
                Event::Enter(NodeData::Text { content }),
                Event::Exit(NodeData::Text { content }),
            ],
        ) == content@,
{
    let e1 = Event::Enter(NodeData::Text { content });
    let e2 = Event::Exit(NodeData::Text { content });
    let events = seq![e1, e2];
    assert(event_item(e1) == Some(Item::Run(content)));
    assert(event_item(e2) == None::<Item>);
    assert(events.drop_first() =~= seq![e2]);
    assert(seq![e2].drop_first() =~= Seq::<Event>::empty());
    assert(items_of(seq![e2]) == opt_items(event_item(e2)) + items_of(Seq::<Event>::empty()));
    assert(items_of(events) == opt_items(event_item(e1)) + items_of(events.drop_first()));
    let items = seq![Item::Run(content)];
    assert(items_of(events) =~= items);
    assert(items.drop_first() =~= Seq::<Item>::empty());
    assert(fold_items(items, false) == content@ + fold_items(
        Seq::<Item>::empty(),
        false || content@.len() > 0,
    ));
    assert(content@ + Seq::<char>::empty() =~= content@);
}

/// An inline element — one that is neither block-level nor `br` — is
/// transparent: removing its enter and exit events anywhere in a traversal
/// leaves the extracted text unchanged.
pub proof fn lemma_inline_transparent(
    tag: String,
    before: Seq<Event>,
    inner: Seq<Event>,
    after: Seq<Event>,
)
    requires
        !is_block_tag(tag@),
        tag@ != "br"@,
    ensures
        extract_spec(
            before + seq![Event::Enter(NodeData::Element { tag })] + inner + seq![
                Event::Exit(NodeData::Element { tag }),
            ] + after,
        ) == extract_spec(before + inner + after),
{
    let enter = Event::Enter(NodeData::Element { tag });
    let exit = Event::Exit(NodeData::Element { tag });
    assert(event_item(enter) == None::<Item>);
    assert(event_item(exit) == None::<Item>);
    lemma_items_of_single(enter);
    lemma_items_of_single(exit);
    lemma_items_of_concat(before + seq![enter] + inner + seq![exit], after);
    lemma_items_of_concat(before + seq![enter] + inner, seq![exit]);
    lemma_items_of_concat(before + seq![enter], inner);
    lemma_items_of_concat(before, seq![enter]);
    lemma_items_of_concat(before + inner, after);
    lemma_items_of_concat(before, inner);
    assert(items_of(before + seq![enter] + inner + seq![exit] + after) =~= items_of(
        before + inner + after,
    ));
}

/// Nesting a traversal in any three block-level elements adds no newlines:
/// each wrapper's breaks fold into boundary groups, which vanish.
pub proof fn lemma_nested_blocks(t1: String, t2: String, t3: String, content: String)
    requires
        is_block_tag(t1@),
        is_block_tag(t2@),
        is_block_tag(t3@),
        !whitespace_only(content@),
    ensures
        extract_spec(
            seq![
                Event::Enter(NodeData::Element { tag: t1 }),
                Event::Enter(NodeData::Element { tag: t2 }),
                Event::Enter(NodeData::Element { tag: t3 }),
                Event::Enter(NodeData::Text { content }),
                Event::Exit(NodeData::Text { content }),
                Event::Exit(NodeData::Element { tag: t3 }),
                Event::Exit(NodeData::Element { tag: t2 }),
                Event::Exit(NodeData::Element { tag: t1 }),
            ],
        ) == content@,
{
    let text_events = seq![
        Event::Enter(NodeData::Text { content }),
        Event::Exit(NodeData::Text { content }),
    ];
    let w3 = seq![Event::Enter(NodeData::Element { tag: t3 })] + text_events + seq![
        Event::Exit(NodeData::Element { tag: t3 }),
    ];
    let w2 = seq![Event::Enter(NodeData::Element { tag: t2 })] + w3 + seq![
        Event::Exit(NodeData::Element { tag: t2 }),
    ];
    let w1 = seq![Event::Enter(NodeData::Element { tag: t1 })] + w2 + seq![
        Event::Exit(NodeData::Element { tag: t1 }),
    ];
    lemma_block_wrap(t3, text_events);
    lemma_block_wrap(t2, w3);
    lemma_block_wrap(t1, w2);
    lemma_text_only(content);
    assert(w1 =~= seq![
        Event::Enter(NodeData::Element { tag: t1 }),
        Event::Enter(NodeData::Element { tag: t2 }),
        Event::Enter(NodeData::Element { tag: t3 }),
        Event::Enter(NodeData::Text { content }),
        Event::Exit(NodeData::Text { content }),
        Event::Exit(NodeData::Element { tag: t3 }),
        Event::Exit(NodeData::Element { tag: t2 }),
        Event::Exit(NodeData::Element { tag: t1 }),
    ]);
}

/// `br` is not a block-level element name, and differs from `p`.
proof fn lemma_br_tag_facts()
    ensures
        "br"@ != "p"@,
        !is_block_tag("br"@),
{
    broadcast use vstd::string::group_string_axioms;

    reveal_strlit("br");
    reveal_strlit("p");
    reveal_strlit("address");
    reveal_strlit("article");
    reveal_strlit("aside");
    reveal_strlit("blockquote");
    reveal_strlit("dd");
    reveal_strlit("details");
    reveal_strlit("dialog");
    reveal_strlit("div");
    reveal_strlit("dl");
    reveal_strlit("dt");
    reveal_strlit("fieldset");
    reveal_strlit("figcaption");
    reveal_strlit("figure");
    reveal_strlit("footer");
    reveal_strlit("form");
    reveal_strlit("h1");
    reveal_strlit("h2");
    reveal_strlit("h3");
    reveal_strlit("h4");
    reveal_strlit("h5");
    reveal_strlit("h6");
    reveal_strlit("header");
    reveal_strlit("hgroup");
    reveal_strlit("hr");
    reveal_strlit("li");
    reveal_strlit("main");
    reveal_strlit("nav");
    reveal_strlit("ol");
    reveal_strlit("pre");
    reveal_strlit("section");
    reveal_strlit("table");
    reveal_strlit("ul");
    assert("br"@.len() == 2);
    assert("p"@.len() == 1);
    assert("br"@[0] == 'b');
}

/// The items of one paragraph holding one non-whitespace-only text node: a
/// two-newline break on each side of the text run.
proof fn lemma_paragraph_items(tag: String, content: String)
    requires
        tag@ == "p"@,
        !whitespace_only(content@),
    ensures
        items_of(
            seq![
                Event::Enter(NodeData::Element { tag }),
                Event::Enter(NodeData::Text { content }),
                Event::Exit(NodeData::Text { content }),
                Event::Exit(NodeData::Element { tag }),
            ],
        ) == seq![Item::Breaks(2), Item::Run(content), Item::Breaks(2)],
{
    lemma_br_tag_facts();
    let e1 = Event::Enter(NodeData::Element { tag });
    let e2 = Event::Enter(NodeData::Text { content });
    let e3 = Event::Exit(NodeData::Text { content });
    let e4 = Event::Exit(NodeData::Element { tag });
    assert(event_item(e1) == Some(Item::Breaks(2)));
    assert(event_item(e2) == Some(Item::Run(content)));
    assert(event_item(e3) == None::<Item>);
    assert(event_item(e4) == Some(Item::Breaks(2)));
    assert(seq![e1, e2, e3, e4] =~= seq![e1] + seq![e2, e3, e4]);
    lemma_items_of_cons(e1, seq![e2, e3, e4]);
    assert(seq![e2, e3, e4] =~= seq![e2] + seq![e3, e4]);
    lemma_items_of_cons(e2, seq![e3, e4]);
    assert(seq![e3, e4] =~= seq![e3] + seq![e4]);
    lemma_items_of_cons(e3, seq![e4]);
    lemma_items_of_single(e4);
    assert(items_of(seq![e1, e2, e3, e4]) =~= seq![
        Item::Breaks(2),
        Item::Run(content),
        Item::Breaks(2),
    ]);
}

/// Two sibling paragraphs are joined by exactly two newlines, with none added
/// before the first text or after the second.
pub proof fn lemma_sibling_paragraphs(tag_a: String, tag_b: String, a: String, b: String)
    requires
        tag_a@ == "p"@,
        tag_b@ == "p"@,
        !whitespace_only(a@),
        !whitespace_only(b@),
    ensures
        extract_spec(
            seq![
                Event::Enter(NodeData::Element { tag: tag_a }),
                Event::Enter(NodeData::Text { content: a }),
                Event::Exit(NodeData::Text { content: a }),
                Event::Exit(NodeData::Element { tag: tag_a }),
                Event::Enter(NodeData::Element { tag: tag_b }),
                Event::Enter(NodeData::Text { content: b }),
                Event::Exit(NodeData::Text { content: b }),
                Event::Exit(NodeData::Element { tag: tag_b }),
            ],
        ) == a@ + newlines(2) + b@,
{
    lemma_br_tag_facts();
    assert(enter_item(NodeData::Element { tag: tag_b }) == Some(Item::Breaks(2)));
    assert(exit_item(NodeData::Element { tag: tag_a }) == Some(Item::Breaks(2)));
    lemma_block_transition(tag_a, tag_b, a, b, 2, 2);
    assert(newlines(max_count(2, 2) as int) == newlines(2));
}

/// Three sibling paragraphs: the middle one is wrapped in two newlines on
/// each side, and the outer boundaries still get none.
pub proof fn lemma_three_sibling_paragraphs(
    tag_a: String,
    tag_b: String,
    tag_c: String,
    a: String,
    b: String,
    c: String,
)
    requires
        tag_a@ == "p"@,
        tag_b@ == "p"@,
        tag_c@ == "p"@,
        !whitespace_only(a@),
        !whitespace_only(b@),
        !whitespace_only(c@),
    ensures
        extract_spec(
            seq![
                Event::Enter(NodeData::Element { tag: tag_a }),
                Event::Enter(NodeData::Text { content: a }),
                Event::Exit(NodeData::Text { content: a }),
                Event::Exit(NodeData::Element { tag: tag_a }),
                Event::Enter(NodeData::Element { tag: tag_b }),
                Event::Enter(NodeData::Text { content: b }),
                Event::Exit(NodeData::Text { content: b }),
                Event::Exit(NodeData::Element { tag: tag_b }),
                Event::Enter(NodeData::Element { tag: tag_c }),
                Event::Enter(NodeData::Text { content: c }),
                Event::Exit(NodeData::Text { content: c }),
                Event::Exit(NodeData::Element { tag: tag_c }),
            ],
        ) == a@ + newlines(2) + b@ + newlines(2) + c@,
{
    let first = seq![
        Event::Enter(NodeData::Element { tag: tag_a }),
        Event::Enter(NodeData::Text { content: a }),
        Event::Exit(NodeData::Text { content: a }),
        Event::Exit(NodeData::Element { tag: tag_a }),
    ];
    let second = seq![
        Event::Enter(NodeData::Element { tag: tag_b }),
        Event::Enter(NodeData::Text { content: b }),
        Event::Exit(NodeData::Text { content: b }),
        Event::Exit(NodeData::Element { tag: tag_b }),
    ];
    let third = seq![
        Event::Enter(NodeData::Element { tag: tag_c }),
        Event::Enter(NodeData::Text { content: c }),
        Event::Exit(NodeData::Text { content: c }),
        Event::Exit(NodeData::Element { tag: tag_c }),
    ];
    lemma_paragraph_items(tag_a, a);
    lemma_paragraph_items(tag_b, b);
    lemma_paragraph_items(tag_c, c);
    lemma_items_of_concat(first + second, third);
    lemma_items_of_concat(first, second);
    let events = first + second + third;
    assert(events =~= seq![
        Event::Enter(NodeData::Element { tag: tag_a }),
        Event::Enter(NodeData::Text { content: a }),
        Event::Exit(NodeData::Text { content: a }),
        Event::Exit(NodeData::Element { tag: tag_a }),
        Event::Enter(NodeData::Element { tag: tag_b }),
        Event::Enter(NodeData::Text { content: b }),
        Event::Exit(NodeData::Text { content: b }),
        Event::Exit(NodeData::Element { tag: tag_b }),
        Event::Enter(NodeData::Element { tag: tag_c }),
        Event::Enter(NodeData::Text { content: c }),
        Event::Exit(NodeData::Text { content: c }),
        Event::Exit(NodeData::Element { tag: tag_c }),
    ]);
    let items = seq![
        Item::Breaks(2),
        Item::Run(a),
        Item::Breaks(2),
        Item::Breaks(2),
        Item::Run(b),
        Item::Breaks(2),
        Item::Breaks(2),
        Item::Run(c),
        Item::Breaks(2),
    ];
    assert(items_of(events) =~= items);
    lemma_not_whitespace_only_nonempty(a@);
    lemma_not_whitespace_only_nonempty(b@);
    lemma_not_whitespace_only_nonempty(c@);
    let s1 = seq![
        Item::Run(a),
        Item::Breaks(2),
        Item::Breaks(2),
        Item::Run(b),
        Item::Breaks(2),
        Item::Breaks(2),
        Item::Run(c),
        Item::Breaks(2),
    ];
    assert(items[1] is Run);
    assert(items.drop_first() =~= s1);
    assert(fold_items(items, false) == fold_items(s1, false));
    let s2 = seq![
        Item::Breaks(2),
        Item::Breaks(2),
        Item::Run(b),
        Item::Breaks(2),
        Item::Breaks(2),
        Item::Run(c),
        Item::Breaks(2),
    ];
    assert(s1.drop_first() =~= s2);
    assert(fold_items(s1, false) == a@ + fold_items(s2, true));
    let s3 = seq![
        Item::Breaks(2),
        Item::Run(b),
        Item::Breaks(2),
        Item::Breaks(2),
        Item::Run(c),
        Item::Breaks(2),
    ];
    assert(s2[1] == Item::Breaks(2));
    assert(seq![Item::Breaks(max_count(2, 2))] + s2.skip(2) =~= s3);
    assert(fold_items(s2, true) == fold_items(s3, true));
    let s4 = seq![
        Item::Run(b),
        Item::Breaks(2),
        Item::Breaks(2),
        Item::Run(c),
        Item::Breaks(2),
    ];
    assert(s3[1] is Run);
    assert(s3.drop_first() =~= s4);
    assert(fold_items(s3, true) == newlines(2) + fold_items(s4, true));
    let s5 = seq![Item::Breaks(2), Item::Breaks(2), Item::Run(c), Item::Breaks(2)];
    assert(s4.drop_first() =~= s5);
    assert(fold_items(s4, true) == b@ + fold_items(s5, true));
    let s6 = seq![Item::Breaks(2), Item::Run(c), Item::Breaks(2)];
    assert(s5[1] == Item::Breaks(2));
    assert(seq![Item::Breaks(max_count(2, 2))] + s5.skip(2) =~= s6);
    assert(fold_items(s5, true) == fold_items(s6, true));
    let s7 = seq![Item::Run(c), Item::Breaks(2)];
    assert(s6[1] is Run);
    assert(s6.drop_first() =~= s7);
    assert(fold_items(s6, true) == newlines(2) + fold_items(s7, true));
    let s8 = seq![Item::Breaks(2)];
    assert(s7.drop_first() =~= s8);
    assert(fold_items(s7, true) == c@ + fold_items(s8, true));
    assert(s8.drop_first() =~= Seq::<Item>::empty());
    assert(fold_items(s8, true) == fold_items(Seq::<Item>::empty(), true));
    assert(fold_items(items, false) =~= a@ + newlines(2) + b@ + newlines(2) + c@);
}

/// The items of one block-level element holding one non-whitespace-only text
/// node, for whatever break counts its tag contributes at enter and exit.
proof fn lemma_wrapped_text_items(tag: String, content: String, c_in: usize, c_out: usize)
    requires
        enter_item(NodeData::Element { tag }) == Some(Item::Breaks(c_in)),
        exit_item(NodeData::Element { tag }) == Some(Item::Breaks(c_out)),
        !whitespace_only(content@),
    ensures
        items_of(
            seq![
                Event::Enter(NodeData::Element { tag }),
                Event::Enter(NodeData::Text { content }),
                Event::Exit(NodeData::Text { content }),
                Event::Exit(NodeData::Element { tag }),
            ],
        ) == seq![Item::Breaks(c_in), Item::Run(content), Item::Breaks(c_out)],
{
    let e1 = Event::Enter(NodeData::Element { tag });
    let e2 = Event::Enter(NodeData::Text { content });
    let e3 = Event::Exit(NodeData::Text { content });
    let e4 = Event::Exit(NodeData::Element { tag });
    assert(event_item(e2) == Some(Item::Run(content)));
    assert(event_item(e3) == None::<Item>);
    assert(seq![e1, e2, e3, e4] =~= seq![e1] + seq![e2, e3, e4]);
    lemma_items_of_cons(e1, seq![e2, e3, e4]);
    assert(seq![e2, e3, e4] =~= seq![e2] + seq![e3, e4]);
    lemma_items_of_cons(e2, seq![e3, e4]);
    assert(seq![e3, e4] =~= seq![e3] + seq![e4]);
    lemma_items_of_cons(e3, seq![e4]);
    lemma_items_of_single(e4);
    assert(items_of(seq![e1, e2, e3, e4]) =~= seq![
        Item::Breaks(c_in),
        Item::Run(content),
        Item::Breaks(c_out),
    ]);
}

/// At the transition between two sibling block-level elements, the closing
/// and opening break markers collapse into a single group sized at the larger
/// of the two counts — however the siblings came to sit next to each other,
/// an implicitly closed element included.
pub proof fn lemma_block_transition(
    tag_a: String,
    tag_b: String,
    a: String,
    b: String,
    break_a: usize,
    break_b: usize,
)
    requires
        is_block_tag(tag_a@),
        is_block_tag(tag_b@),
        exit_item(NodeData::Element { tag: tag_a }) == Some(Item::Breaks(break_a)),
        enter_item(NodeData::Element { tag: tag_b }) == Some(Item::Breaks(break_b)),
        !whitespace_only(a@),
        !whitespace_only(b@),
    ensures
        extract_spec(
            seq![
                Event::Enter(NodeData::Element { tag: tag_a }),
                Event::Enter(NodeData::Text { content: a }),
                Event::Exit(NodeData::Text { content: a }),
                Event::Exit(NodeData::Element { tag: tag_a }),
                Event::Enter(NodeData::Element { tag: tag_b }),
                Event::Enter(NodeData::Text { content: b }),
                Event::Exit(NodeData::Text { content: b }),
                Event::Exit(NodeData::Element { tag: tag_b }),
            ],
        ) == a@ + newlines(max_count(break_a, break_b) as int) + b@,
{
    let c1: usize = if tag_a@ == "br"@ {
        1
    } else if tag_a@ == "p"@ {
        2
    } else {
        1
    };
    let x2: usize = if tag_b@ == "p"@ {
        2
    } else {
        1
    };
    assert(enter_item(NodeData::Element { tag: tag_a }) == Some(Item::Breaks(c1)));
    assert(exit_item(NodeData::Element { tag: tag_b }) == Some(Item::Breaks(x2)));
    let first = seq![
        Event::Enter(NodeData::Element { tag: tag_a }),
        Event::Enter(NodeData::Text { content: a }),
        Event::Exit(NodeData::Text { content: a }),
        Event::Exit(NodeData::Element { tag: tag_a }),
    ];
    let second = seq![
        Event::Enter(NodeData::Element { tag: tag_b }),
        Event::Enter(NodeData::Text { content: b }),
        Event::Exit(NodeData::Text { content: b }),
        Event::Exit(NodeData::Element { tag: tag_b }),
    ];
    lemma_wrapped_text_items(tag_a, a, c1, break_a);
    lemma_wrapped_text_items(tag_b, b, break_b, x2);
    lemma_items_of_concat(first, second);
    let events = first + second;
    assert(events =~= seq![
        Event::Enter(NodeData::Element { tag: tag_a }),
        Event::Enter(NodeData::Text { content: a }),
        Event::Exit(NodeData::Text { content: a }),
        Event::Exit(NodeData::Element { tag: tag_a }),
        Event::Enter(NodeData::Element { tag: tag_b }),
        Event::Enter(NodeData::Text { content: b }),
        Event::Exit(NodeData::Text { content: b }),
        Event::Exit(NodeData::Element { tag: tag_b }),
    ]);
    let items = seq![
        Item::Breaks(c1),
        Item::Run(a),
        Item::Breaks(break_a),
        Item::Breaks(break_b),
        Item::Run(b),
        Item::Breaks(x2),
    ];
    assert(items_of(events) =~= items);
    lemma_not_whitespace_only_nonempty(a@);
    lemma_not_whitespace_only_nonempty(b@);
    let s1 = seq![
        Item::Run(a),
        Item::Breaks(break_a),
        Item::Breaks(break_b),
        Item::Run(b),
        Item::Breaks(x2),
    ];
    assert(items[1] is Run);
    assert(items.drop_first() =~= s1);
    assert(fold_items(items, false) == fold_items(s1, false));
    let s2 = seq![Item::Breaks(break_a), Item::Breaks(break_b), Item::Run(b), Item::Breaks(x2)];
    assert(s1.drop_first() =~= s2);
    assert(fold_items(s1, false) == a@ + fold_items(s2, true));
    let s3 = seq![Item::Breaks(max_count(break_a, break_b)), Item::Run(b), Item::Breaks(x2)];
    assert(s2[1] == Item::Breaks(break_b));
    assert(seq![Item::Breaks(max_count(break_a, break_b))] + s2.skip(2) =~= s3);
    assert(fold_items(s2, true) == fold_items(s3, true));
    let s4 = seq![Item::Run(b), Item::Breaks(x2)];
    assert(s3[1] is Run);
    assert(s3.drop_first() =~= s4);
    assert(fold_items(s3, true) == newlines(max_count(break_a, break_b) as int) + fold_items(
        s4,
        true,
    ));
    let s5 = seq![Item::Breaks(x2)];
    assert(s4.drop_first() =~= s5);
    assert(fold_items(s4, true) == b@ + fold_items(s5, true));
    assert(s5.drop_first() =~= Seq::<Item>::empty());
    assert(fold_items(s5, true) == fold_items(Seq::<Item>::empty(), true));
    assert(fold_items(items, false) =~= a@ + newlines(max_count(break_a, break_b) as int) + b@);
}

/// A `br` element between two text runs inserts exactly one newline.
pub proof fn lemma_break_between_runs(tag: String, a: String, b: String)
    requires
        tag@ == "br"@,
        !whitespace_only(a@),
        !whitespace_only(b@),
    ensures
        extract_spec(
            seq![
                Event::Enter(NodeData::Text { content: a }),
                Event::Exit(NodeData::Text { content: a }),
                Event::Enter(NodeData::Element { tag }),
                Event::Exit(NodeData::Element { tag }),
                Event::Enter(NodeData::Text { content: b }),
                Event::Exit(NodeData::Text { content: b }),
            ],
        ) == a@ + newlines(1) + b@,
{
    lemma_br_tag_facts();
    let e1 = Event::Enter(NodeData::Text { content: a });
    let e2 = Event::Exit(NodeData::Text { content: a });
    let e3 = Event::Enter(NodeData::Element { tag });
    let e4 = Event::Exit(NodeData::Element { tag });
    let e5 = Event::Enter(NodeData::Text { content: b });
    let e6 = Event::Exit(NodeData::Text { content: b });
    assert(event_item(e1) == Some(Item::Run(a)));
    assert(event_item(e2) == None::<Item>);
    assert(event_item(e3) == Some(Item::Breaks(1)));
    assert(event_item(e4) == None::<Item>);
    assert(event_item(e5) == Some(Item::Run(b)));
    assert(event_item(e6) == None::<Item>);
    let events = seq![e1, e2, e3, e4, e5, e6];
    assert(events =~= seq![e1] + seq![e2, e3, e4, e5, e6]);
    lemma_items_of_cons(e1, seq![e2, e3, e4, e5, e6]);
    assert(seq![e2, e3, e4, e5, e6] =~= seq![e2] + seq![e3, e4, e5, e6]);
    lemma_items_of_cons(e2, seq![e3, e4, e5, e6]);
    assert(seq![e3, e4, e5, e6] =~= seq![e3] + seq![e4, e5, e6]);
    lemma_items_of_cons(e3, seq![e4, e5, e6]);
    assert(seq![e4, e5, e6] =~= seq![e4] + seq![e5, e6]);
    lemma_items_of_cons(e4, seq![e5, e6]);
    assert(seq![e5, e6] =~= seq![e5] + seq![e6]);
    lemma_items_of_cons(e5, seq![e6]);
    lemma_items_of_single(e6);
    let items = seq![Item::Run(a), Item::Breaks(1), Item::Run(b)];
    assert(items_of(events) =~= items);
    lemma_not_whitespace_only_nonempty(a@);
    lemma_not_whitespace_only_nonempty(b@);
    let s2 = seq![Item::Breaks(1), Item::Run(b)];
    assert(items.drop_first() =~= s2);
    assert(fold_items(items, false) == a@ + fold_items(s2, true));
    let s3 = seq![Item::Run(b)];
    assert(s2[1] is Run);
    assert(s2.drop_first() =~= s3);
    assert(fold_items(s2, true) == newlines(1) + fold_items(s3, true));
    assert(s3.drop_first() =~= Seq::<Item>::empty());
    assert(fold_items(s3, true) == b@ + fold_items(Seq::<Item>::empty(), true));
    assert(fold_items(items, false) =~= a@ + newlines(1) + b@);
}

} // verus!

