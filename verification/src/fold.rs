//! The folding rule: one pass over the content items appends every text run
//! verbatim, merges each maximal group of adjacent break markers into a single
//! group carrying the largest count, and renders that group as that many
//! newline characters — unless the group sits at the very start of the output
//! (nothing appended yet) or at the very end of the item sequence, in which
//! case it is dropped entirely.

use vstd::prelude::*;
use vstd::string::StringExecFns;

use crate::items::Item;

verus! {

/// `n` newline characters (none when `n <= 0`).
pub open spec fn newlines(n: int) -> Seq<char>
    decreases n,
{
    if n <= 0 {
        Seq::empty()
    } else {
        newlines(n - 1).push('\n')
    }
}

/// The larger of two break counts.
pub open spec fn max_count(a: usize, b: usize) -> usize {
    if a >= b {
        a
    } else {
        b
    }
}

/// The output of folding `items` when text has already been appended before
/// them exactly if `started` holds. A run is appended verbatim; two adjacent
/// break markers merge into one carrying the larger count; a fully merged
/// break group is rendered as its count in newlines, unless nothing was
/// appended before it or nothing follows it, in which case it disappears.
pub open spec fn fold_items(items: Seq<Item>, started: bool) -> Seq<char>
    decreases items.len(),
{
    if items.len() == 0 {
        Seq::empty()
    } else {
        match items[0] {
            Item::Run(t) => t@ + fold_items(items.drop_first(), started || t@.len() > 0),
            Item::Breaks(n) => if items.len() >= 2 && items[1] is Breaks {
                fold_items(
                    seq![Item::Breaks(max_count(n, items[1]->Breaks_0))] + items.skip(2),
                    started,
                )
            } else if started && items.len() >= 2 {
                newlines(n as int) + fold_items(items.drop_first(), true)
            } else {
                fold_items(items.drop_first(), started)
            },
        }
    }
}

/// Assembles the folded output of `items` into a string.
pub fn render_items(items: &Vec<Item>) -> (out: String)
    ensures
        out@ == fold_items(items@, false),
{
    let mut out = String::new();
    let mut started: bool = false;
    let mut i: usize = 0;
    proof {
        assert(items@.skip(0) =~= items@);
        assert(out@ + fold_items(items@, false) =~= fold_items(items@, false));
    }
    while i < items.len()
        invariant
            0 <= i <= items@.len(),
            started == (out@.len() > 0),
            fold_items(items@, false) == out@ + fold_items(items@.skip(i as int), started),
        decreases items@.len() - i,
    {
        proof {
            assert(items@.skip(i as int)[0] == items@[i as int]);
        }
        match &items[i] {
            Item::Run(t) => {
                proof {
                    assert(items@.skip(i as int).drop_first() =~= items@.skip(i as int + 1));
                }
                out.append(t.as_str());
                started = started || !t.as_str().is_empty();
                i += 1;
            },
            Item::Breaks(c) => {
                let mut m: usize = *c;
                let mut j: usize = i + 1;
                proof {
                    assert(items@[i as int] == Item::Breaks(m));
                    assert(seq![Item::Breaks(m)] + items@.skip(i as int + 1) =~= items@.skip(
                        i as int,
                    ));
                }
                while j < items.len()
                    invariant
                        i < items@.len(),
                        i + 1 <= j <= items@.len(),
                        items@[i as int] is Breaks,
                        fold_items(items@.skip(i as int), started) == fold_items(
                            seq![Item::Breaks(m)] + items@.skip(j as int),
                            started,
                        ),
                    ensures
                        i + 1 <= j <= items@.len(),
                        j == items@.len() || items@[j as int] is Run,
                        fold_items(items@.skip(i as int), started) == fold_items(
                            seq![Item::Breaks(m)] + items@.skip(j as int),
                            started,
                        ),
                    decreases items@.len() - j,
                {
                    match &items[j] {
                        Item::Breaks(c2) => {
                            proof {
                                let s = seq![Item::Breaks(m)] + items@.skip(j as int);
                                assert(s[0] == Item::Breaks(m));
                                assert(s[1] == items@[j as int]);
                                assert(s.skip(2) =~= items@.skip(j as int + 1));
                                assert(fold_items(s, started) == fold_items(
                                    seq![Item::Breaks(max_count(m, *c2))] + items@.skip(
                                        j as int + 1,
                                    ),
                                    started,
                                ));
                            }
                            m = if *c2 > m {
                                *c2
                            } else {
                                m
                            };
                            j += 1;
                        },
                        Item::Run(_) => {
                            break ;
                        },
                    }
                }
                if started && j < items.len() {
                    proof {
                        let s = seq![Item::Breaks(m)] + items@.skip(j as int);
                        assert(s[0] == Item::Breaks(m));
                        assert(s[1] == items@[j as int]);
                        assert(!(s[1] is Breaks));
                        assert(s.drop_first() =~= items@.skip(j as int));
                        assert(fold_items(s, started) == newlines(m as int) + fold_items(
                            items@.skip(j as int),
                            true,
                        ));
                    }
                    let ghost base = out@;
                    let mut k: usize = 0;
                    while k < m
                        invariant
                            k <= m,
                            out@ == base + newlines(k as int),
                        decreases m - k,
                    {
                        out.append("\n");
                        proof {
                            reveal_strlit("\n");
                            assert("\n"@ =~= seq!['\n']);
                            assert(base + newlines(k as int) + "\n"@ =~= base + newlines(
                                k as int + 1,
                            ));
                        }
                        k += 1;
                    }
                    proof {
                        assert(out@.len() > 0);
                    }
                } else {
                    proof {
                        let s = seq![Item::Breaks(m)] + items@.skip(j as int);
                        assert(s[0] == Item::Breaks(m));
                        if j == items@.len() {
                            assert(items@.skip(j as int) =~= Seq::<Item>::empty());
                            assert(s.len() == 1);
                            assert(s.drop_first() =~= Seq::<Item>::empty());
                            assert(fold_items(s, started) == fold_items(
                                Seq::<Item>::empty(),
                                started,
                            ));
                        } else {
                            assert(s[1] == items@[j as int]);
                            assert(!(s[1] is Breaks));
                            assert(s.drop_first() =~= items@.skip(j as int));
                            assert(fold_items(s, started) == fold_items(
                                items@.skip(j as int),
                                started,
                            ));
                        }
                    }
                }
                i = j;
            },
        }
    }
    proof {
        assert(items@.skip(items@.len() as int) =~= Seq::<Item>::empty());
        assert(out@ + fold_items(Seq::<Item>::empty(), started) =~= out@);
    }
    out
}

} // verus!
