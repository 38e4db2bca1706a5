//! The selection scheduler: filters candidates against a time ceiling,
//! orders them by the chosen strategy, and walks them under a points budget
//! that only the server may rewrite.

use vstd::prelude::*;

verus! {

use crate::ConfigError;
use crate::account::entry::{Entry, EntryV};
use crate::timespan::{duration_secs_of, parse_duration_secs};

/// Pacing: the pause after every successful submission, in seconds.  The
/// only rate limiting toward the platform is this delay; it is a
/// configuration constant, not computed state.
pub const INTER_SUBMISSION_DELAY_SECS: u64 = 5;

/// The primary sort key for candidate records.
#[derive(Debug, Clone, Copy, PartialEq, Eq)]
pub enum SortStrategy {
    /// Rank by the heuristic win probability `copies / entries`.
    Chance,
    /// Rank by points cost.
    Price,
}

impl SortStrategy {
    /// The default strategy ranks by winning chance.
    pub fn by_chance() -> (r: SortStrategy)
        ensures
            r == SortStrategy::Chance,
    {
        SortStrategy::Chance
    }
}

/// The default time ceiling a caller gets when it names none: only
/// giveaways closing within one hour.
pub fn default_filter_time() -> (r: Option<String>)
    ensures
        r matches Some(s) && s@ == "1h"@,
{
    Some(String::from_str("1h"))
}

/// Reads a caller-supplied time ceiling; a text that is not a duration, or
/// one with more digits than the duration-digit limit, is a configuration
/// error.
pub fn parse_filter_time(s: &str) -> (r: Result<u64, ConfigError>)
    ensures
        crate::text::digits_of(s@).len() > crate::timespan::MAX_DURATION_DIGITS ==> r == Err::<
            u64,
            ConfigError,
        >(ConfigError::BadDuration),
        crate::text::digits_of(s@).len() <= crate::timespan::MAX_DURATION_DIGITS ==> match
            duration_secs_of(s@) {
            Option::Some(secs) => r == Ok::<u64, ConfigError>(secs),
            Option::None => r == Err::<u64, ConfigError>(ConfigError::BadDuration),
        },
{
    if crate::text::count_digits(s) > crate::timespan::MAX_DURATION_DIGITS {
        return Err(ConfigError::BadDuration);
    }
    match parse_duration_secs(s) {
        Option::Some(secs) => Ok(secs),
        Option::None => Err(ConfigError::BadDuration),
    }
}

/// True when the chance of a record is not a finite number: with no entries
/// yet, `copies / entries` divides by zero.
pub open spec fn degenerate_chance(a: EntryV) -> bool {
    a.entries == 0
}

/// "`a` sorts no later than `b`" under the chance strategy: higher
/// `copies / entries` first, compared without division by cross
/// multiplication.  A pair whose chances cannot be compared as finite
/// numbers is treated as "less than": the degenerate side sorts as lower
/// priority rather than raising an error.
pub open spec fn chance_le(a: EntryV, b: EntryV) -> bool {
    if degenerate_chance(a) {
        degenerate_chance(b)
    } else {
        degenerate_chance(b) || a.copies * b.entries >= b.copies * a.entries
    }
}

/// "`a` sorts no later than `b`" under the price strategy: most expensive
/// first, so scarcer giveaways are attempted while budget remains.
pub open spec fn price_le(a: EntryV, b: EntryV) -> bool {
    a.price >= b.price
}

/// The chosen strategy's comparator.
pub open spec fn strategy_le(strategy: SortStrategy, a: EntryV, b: EntryV) -> bool {
    match strategy {
        SortStrategy::Chance => chance_le(a, b),
        SortStrategy::Price => price_le(a, b),
    }
}

/// The ordering the scheduler sorts by: the strategy's comparator, flipped
/// uniformly when `reverse` is set.
pub open spec fn spec_le(strategy: SortStrategy, reverse: bool, a: EntryV, b: EntryV) -> bool {
    if reverse {
        strategy_le(strategy, b, a)
    } else {
        strategy_le(strategy, a, b)
    }
}

/// True when consecutive records of `s` never violate the scheduler's
/// ordering.
pub open spec fn sorted_by_le(s: Seq<EntryV>, strategy: SortStrategy, reverse: bool) -> bool {
    forall|i: int, j: int|
        0 <= i < j < s.len() ==> spec_le(strategy, reverse, #[trigger] s[i], #[trigger] s[j])
}

/// The scheduler's ordering is total: any two records compare one way or
/// the other, so no pair of records can fail to be ordered.
pub proof fn lemma_le_total(strategy: SortStrategy, reverse: bool, a: EntryV, b: EntryV)
    ensures
        spec_le(strategy, reverse, a, b) || spec_le(strategy, reverse, b, a),
{
}

/// Comparing ratios by cross multiplication is transitive when every
/// denominator is positive.
proof fn lemma_ratio_trans(ac: int, ae: int, bc: int, be: int, cc: int, ce: int)
    by (nonlinear_arith)
    requires
        ae >= 1,
        be >= 1,
        ce >= 1,
        ac * be >= bc * ae,
        bc * ce >= cc * be,
    ensures
        ac * ce >= cc * ae,
{
}

/// The chance comparator is transitive.
proof fn lemma_chance_trans(a: EntryV, b: EntryV, c: EntryV)
    requires
        chance_le(a, b),
        chance_le(b, c),
    ensures
        chance_le(a, c),
{
    if !degenerate_chance(a) && !degenerate_chance(b) && !degenerate_chance(c) {
        lemma_ratio_trans(
            a.copies as int,
            a.entries as int,
            b.copies as int,
            b.entries as int,
            c.copies as int,
            c.entries as int,
        );
    }
}

/// The scheduler's ordering is transitive.
pub proof fn lemma_le_trans(
    strategy: SortStrategy,
    reverse: bool,
    a: EntryV,
    b: EntryV,
    c: EntryV,
)
    requires
        spec_le(strategy, reverse, a, b),
        spec_le(strategy, reverse, b, c),
    ensures
        spec_le(strategy, reverse, a, c),
{
    match strategy {
        SortStrategy::Chance => {
            if reverse {
                lemma_chance_trans(c, b, a);
            } else {
                lemma_chance_trans(a, b, c);
            }
        },
        SortStrategy::Price => {},
    }
}

/// A record with no entries yet has no finite chance and sorts below every
/// record whose chance is finite under the chance strategy: the degenerate
/// side always lands at the lowest priority rather than raising an error.
pub proof fn lemma_degenerate_chance_sorts_last(a: EntryV, b: EntryV)
    requires
        a.entries > 0,
        b.entries == 0,
    ensures
        chance_le(a, b),
        !chance_le(b, a),
{
}

/// The scheduler's comparator on records.
pub fn le(strategy: &SortStrategy, reverse: bool, a: &Entry, b: &Entry) -> (r: bool)
    ensures
        r == spec_le(*strategy, reverse, a@, b@),
{
    if reverse {
        strategy_compare(strategy, b, a)
    } else {
        strategy_compare(strategy, a, b)
    }
}

/// The strategy's comparator on records.
fn strategy_compare(strategy: &SortStrategy, a: &Entry, b: &Entry) -> (r: bool)
    ensures
        r == strategy_le(*strategy, a@, b@),
{
    match strategy {
        SortStrategy::Price => a.price >= b.price,
        SortStrategy::Chance => {
            if a.entries == 0 {
                b.entries == 0
            } else if b.entries == 0 {
                true
            } else {
                let ac: u64 = a.copies as u64;
                let bent: u64 = b.entries as u64;
                let bc: u64 = b.copies as u64;
                let aent: u64 = a.entries as u64;
                proof {
                    assert(ac * bent <= u64::MAX && bc * aent <= u64::MAX) by (nonlinear_arith)
                        requires
                            ac < 0x1_0000_0000,
                            bent < 0x1_0000_0000,
                            bc < 0x1_0000_0000,
                            aent < 0x1_0000_0000,
                    ;
                }
                ac * bent >= bc * aent
            }
        },
    }
}

/// True when a record closes within the ceiling.
pub open spec fn within_ceiling(e: EntryV, ceiling_secs: u64) -> bool {
    e.ends_in_secs <= ceiling_secs
}

/// The ceiling as a predicate on records.
pub open spec fn time_pred(ceiling_secs: u64) -> spec_fn(EntryV) -> bool {
    |e: EntryV| within_ceiling(e, ceiling_secs)
}

/// The records that survive the time ceiling, in their original order.
pub open spec fn spec_filter_by_time(s: Seq<EntryV>, ceiling_secs: u64) -> Seq<EntryV> {
    s.filter(time_pred(ceiling_secs))
}

/// Extending the input by one record extends its filtered image exactly
/// when the record survives the ceiling.
proof fn lemma_filter_by_time_step(s: Seq<EntryV>, ceiling_secs: u64, i: int)
    requires
        0 <= i < s.len(),
    ensures
        spec_filter_by_time(s.subrange(0, i + 1), ceiling_secs) == if within_ceiling(
            s[i],
            ceiling_secs,
        ) {
            spec_filter_by_time(s.subrange(0, i), ceiling_secs).push(s[i])
        } else {
            spec_filter_by_time(s.subrange(0, i), ceiling_secs)
        },
{
    reveal(Seq::<EntryV>::filter);
    let pre = s.subrange(0, i);
    let ext = s.subrange(0, i + 1);
    assert(ext.drop_last() =~= pre);
    assert(ext.last() == s[i]);
}

/// Drops every record whose remaining time exceeds the ceiling; the order
/// of the survivors is kept.  Out-of-ceiling records are skipped, never
/// failed.
pub fn filter_by_time(v: Vec<Entry>, ceiling_secs: u64) -> (r: Vec<Entry>)
    ensures
        r.deep_view() == spec_filter_by_time(v.deep_view(), ceiling_secs),
{
    let ghost all = v.deep_view();
    let mut input = v;
    let mut out: Vec<Entry> = Vec::new();
    let ghost i: int = 0;
    proof {
        reveal(Seq::<EntryV>::filter);
        assert(input.deep_view() =~= all.subrange(0, all.len() as int));
        assert(out.deep_view() =~= Seq::<EntryV>::empty());
        assert(spec_filter_by_time(all.subrange(0, 0), ceiling_secs) =~= Seq::<EntryV>::empty());
    }
    while input.len() > 0
        invariant
            0 <= i <= all.len(),
            i + input@.len() == all.len(),
            input.deep_view() == all.subrange(i, all.len() as int),
            out.deep_view() == spec_filter_by_time(all.subrange(0, i), ceiling_secs),
        decreases input@.len(),
    {
        let ghost before_v = input@;
        let ghost before_dv = input.deep_view();
        let e = input.remove(0);
        proof {
            assert(before_dv[0] == before_v[0]@);
            assert(before_dv[0] == all[i]);
            assert(e@ == all[i]);
            assert(input.deep_view() =~= all.subrange(i + 1, all.len() as int)) by {
                assert forall|k: int| 0 <= k < input@.len() implies input.deep_view()[k]
                    == all.subrange(i + 1, all.len() as int)[k] by {
                    assert(input.deep_view()[k] == input@[k]@);
                    assert(input@[k] == before_v[k + 1]);
                    assert(before_dv[k + 1] == before_v[k + 1]@);
                    assert(before_dv[k + 1] == all[i + 1 + k]);
                }
            }
            lemma_filter_by_time_step(all, ceiling_secs, i);
        }
        let keep = e.ends_in_secs <= ceiling_secs;
        let ghost prev = out.deep_view();
        if keep {
            out.push(e);
            proof {
                assert(out.deep_view() =~= prev.push(all[i]));
            }
        }
        proof {
            i = i + 1;
        }
    }
    proof {
        assert(all.subrange(0, i) =~= all);
    }
    out
}

/// Swaps the records at `j - 1` and `j`; the rest of the list, and its
/// multiset of records, stay as they were.
fn swap_adjacent(v: &mut Vec<Entry>, j: usize)
    requires
        1 <= j < old(v)@.len(),
    ensures
        final(v)@.len() == old(v)@.len(),
        final(v).deep_view() == old(v).deep_view().update(
            j - 1,
            old(v).deep_view()[j as int],
        ).update(j as int, old(v).deep_view()[j - 1]),
        final(v).deep_view().to_multiset() == old(v).deep_view().to_multiset(),
{
    let ghost wv = v@;
    let ghost w = v.deep_view();
    let x = v.remove(j);
    let ghost mid = v@;
    v.insert(j - 1, x);
    proof {
        broadcast use vstd::seq_lib::to_multiset_remove;
        broadcast use vstd::seq_lib::to_multiset_insert;
        broadcast use vstd::multiset::group_multiset_axioms;

        wv.remove_ensures(j as int);
        mid.insert_ensures(j - 1, x);
        let nw = v.deep_view();
        let target = w.update(j - 1, w[j as int]).update(j as int, w[j - 1]);
        assert(nw =~= target) by {
            assert forall|k: int| 0 <= k < nw.len() implies nw[k] == target[k] by {
                assert(nw[k] == v@[k]@);
                assert(w[k] == wv[k]@);
                if k < j - 1 {
                    assert(v@[k] == mid[k]);
                    assert(mid[k] == wv[k]);
                } else if k == j - 1 {
                    assert(v@[k] == x);
                } else {
                    assert(v@[k] == mid[k - 1]);
                    if k == j {
                        assert(mid[k - 1] == wv[j - 1]);
                    } else {
                        assert(mid[k - 1] == wv[k]);
                    }
                }
            }
        }
        assert(nw =~= w.remove(j as int).insert(j - 1, w[j as int])) by {
            w.remove_ensures(j as int);
            w.remove(j as int).insert_ensures(j - 1, w[j as int]);
            assert forall|k: int| 0 <= k < nw.len() implies nw[k] == w.remove(j as int).insert(
                j - 1,
                w[j as int],
            )[k] by {}
        }
        broadcast use vstd::seq_lib::group_to_multiset_ensures;

        assert(w.contains(w[j as int]));
        assert(w.to_multiset().count(w[j as int]) > 0);
        assert(w.remove(j as int).to_multiset() == w.to_multiset().remove(w[j as int]));
        assert(w.remove(j as int).insert(j - 1, w[j as int]).to_multiset() == w.remove(
            j as int,
        ).to_multiset().insert(w[j as int]));
        assert(nw.to_multiset() =~= w.to_multiset());
    }
}

/// Sorts the candidates by the scheduler's ordering: the result is a
/// permutation of the input, ordered by the chosen strategy and flipped
/// uniformly when `reverse` is set.
pub fn sort_giveaways(v: &mut Vec<Entry>, strategy: &SortStrategy, reverse: bool)
    ensures
        final(v)@.len() == old(v)@.len(),
        final(v).deep_view().to_multiset() == old(v).deep_view().to_multiset(),
        sorted_by_le(final(v).deep_view(), *strategy, reverse),
{
    let ghost orig = v.deep_view();
    let mut i: usize = 0;
    while i < v.len()
        invariant
            i <= v@.len(),
            v@.len() == orig.len(),
            v.deep_view().to_multiset() == orig.to_multiset(),
            sorted_by_le(v.deep_view().subrange(0, i as int), *strategy, reverse),
        decreases v@.len() - i,
    {
        let mut j: usize = i;
        while j > 0
            invariant
                j <= i < v@.len(),
                v@.len() == orig.len(),
                v.deep_view().to_multiset() == orig.to_multiset(),
                sorted_by_le(v.deep_view().subrange(0, j as int), *strategy, reverse),
                sorted_by_le(v.deep_view().subrange(j as int, i + 1), *strategy, reverse),
                forall|k1: int, k2: int|
                    0 <= k1 < j && j < k2 <= i ==> spec_le(
                        *strategy,
                        reverse,
                        #[trigger] v.deep_view()[k1],
                        #[trigger] v.deep_view()[k2],
                    ),
            ensures
                j <= i < v@.len(),
                v@.len() == orig.len(),
                v.deep_view().to_multiset() == orig.to_multiset(),
                sorted_by_le(v.deep_view().subrange(0, j as int), *strategy, reverse),
                sorted_by_le(v.deep_view().subrange(j as int, i + 1), *strategy, reverse),
                forall|k1: int, k2: int|
                    0 <= k1 < j && j < k2 <= i ==> spec_le(
                        *strategy,
                        reverse,
                        #[trigger] v.deep_view()[k1],
                        #[trigger] v.deep_view()[k2],
                    ),
                j == 0 || spec_le(
                    *strategy,
                    reverse,
                    v.deep_view()[j - 1],
                    v.deep_view()[j as int],
                ),
            decreases j,
        {
            let settled = le(strategy, reverse, &v[j - 1], &v[j]);
            proof {
                assert(v.deep_view()[j - 1] == v@[j - 1]@);
                assert(v.deep_view()[j as int] == v@[j as int]@);
            }
            if settled {
                break ;
            }
            let ghost w = v.deep_view();
            proof {
                lemma_le_total(*strategy, reverse, w[j - 1], w[j as int]);
            }
            swap_adjacent(v, j);
            proof {
                let nw = v.deep_view();
                assert(sorted_by_le(nw.subrange(0, j - 1), *strategy, reverse)) by {
                    let pre = nw.subrange(0, j - 1);
                    let old_pre = w.subrange(0, j as int);
                    assert forall|k1: int, k2: int| 0 <= k1 < k2 < pre.len() implies spec_le(
                        *strategy,
                        reverse,
                        #[trigger] pre[k1],
                        #[trigger] pre[k2],
                    ) by {
                        assert(pre[k1] == old_pre[k1]);
                        assert(pre[k2] == old_pre[k2]);
                    }
                }
                assert(sorted_by_le(nw.subrange(j - 1, i + 1), *strategy, reverse)) by {
                    let tail = nw.subrange(j - 1, i + 1);
                    let old_tail = w.subrange(j as int, i + 1);
                    let old_pre = w.subrange(0, j as int);
                    assert forall|k1: int, k2: int| 0 <= k1 < k2 < tail.len() implies spec_le(
                        *strategy,
                        reverse,
                        #[trigger] tail[k1],
                        #[trigger] tail[k2],
                    ) by {
                        let a1 = j - 1 + k1;
                        let a2 = j - 1 + k2;
                        if a1 == j - 1 {
                            // the moved-up record, formerly at j
                            if a2 == j {
                                assert(tail[k1] == w[j as int]);
                                assert(tail[k2] == w[j - 1]);
                            } else {
                                assert(tail[k1] == w[j as int]);
                                assert(tail[k2] == w[a2]);
                                assert(old_tail[0] == w[j as int]);
                                assert(old_tail[a2 - j] == w[a2]);
                            }
                        } else if a1 == j {
                            // the moved-down record, formerly at j - 1
                            assert(tail[k1] == w[j - 1]);
                            assert(tail[k2] == w[a2]);
                        } else {
                            assert(tail[k1] == w[a1]);
                            assert(tail[k2] == w[a2]);
                            assert(old_tail[a1 - j] == w[a1]);
                            assert(old_tail[a2 - j] == w[a2]);
                        }
                    }
                }
                assert forall|k1: int, k2: int| 0 <= k1 < j - 1 && j - 1 < k2 <= i implies spec_le(
                    *strategy,
                    reverse,
                    #[trigger] nw[k1],
                    #[trigger] nw[k2],
                ) by {
                    let old_pre = w.subrange(0, j as int);
                    assert(nw[k1] == w[k1]);
                    if k2 == j {
                        assert(nw[k2] == w[j - 1]);
                        assert(old_pre[k1] == w[k1]);
                        assert(old_pre[j - 1] == w[j - 1]);
                    } else {
                        assert(nw[k2] == w[k2]);
                    }
                }
            }
            j = j - 1;
        }
        proof {
            let w = v.deep_view();
            assert(sorted_by_le(w.subrange(0, i + 1), *strategy, reverse)) by {
                let win = w.subrange(0, i + 1);
                let pre = w.subrange(0, j as int);
                let tail = w.subrange(j as int, i + 1);
                assert forall|k1: int, k2: int| 0 <= k1 < k2 < win.len() implies spec_le(
                    *strategy,
                    reverse,
                    #[trigger] win[k1],
                    #[trigger] win[k2],
                ) by {
                    assert(win[k1] == w[k1]);
                    assert(win[k2] == w[k2]);
                    if k2 < j {
                        assert(pre[k1] == w[k1]);
                        assert(pre[k2] == w[k2]);
                    } else if k1 >= j {
                        assert(tail[k1 - j] == w[k1]);
                        assert(tail[k2 - j] == w[k2]);
                    } else if k2 == j {
                        // here j >= 1 and the loop's exit fact orders the pair
                        if k1 == j - 1 {
                        } else {
                            assert(pre[k1] == w[k1]);
                            assert(pre[j - 1] == w[j - 1]);
                            lemma_le_trans(*strategy, reverse, w[k1], w[j - 1], w[j as int]);
                        }
                    } else {
                        // k1 < j < k2: the loop's bridge fact orders the pair
                    }
                }
            }
        }
        i = i + 1;
    }
    proof {
        assert(v.deep_view().subrange(0, i as int) =~= v.deep_view());
    }
}

/// The candidate list prepared for a run: nothing when no giveaways were
/// parsed at all (a fatal condition for the run), else the records within
/// the time ceiling, ordered by the strategy.
pub fn prepare_giveaways(
    v: Vec<Entry>,
    ceiling_secs: Option<u64>,
    strategy: &SortStrategy,
    reverse: bool,
) -> (r: Option<Vec<Entry>>)
    ensures
        (r is Some) == (v@.len() > 0),
        r matches Some(out) ==> {
            let kept = match ceiling_secs {
                Option::Some(c) => spec_filter_by_time(v.deep_view(), c),
                Option::None => v.deep_view(),
            };
            &&& out.deep_view().to_multiset() == kept.to_multiset()
            &&& sorted_by_le(out.deep_view(), *strategy, reverse)
            &&& (forall|k: int|
                0 <= k < out@.len() ==> v.deep_view().contains(#[trigger] out.deep_view()[k]))
        },
{
    let ghost all = v.deep_view();
    if v.len() == 0 {
        return None;
    }
    let mut kept = match ceiling_secs {
        Option::Some(c) => filter_by_time(v, c),
        Option::None => v,
    };
    sort_giveaways(&mut kept, strategy, reverse);
    proof {
        broadcast use vstd::seq_lib::group_to_multiset_ensures;

        let kept_dv = match ceiling_secs {
            Option::Some(c) => spec_filter_by_time(all, c),
            Option::None => all,
        };
        assert forall|k: int| 0 <= k < kept@.len() implies all.contains(
            #[trigger] kept.deep_view()[k],
        ) by {
            let x = kept.deep_view()[k];
            assert(kept.deep_view().contains(x));
            assert(kept.deep_view().to_multiset().count(x) > 0);
            assert(kept_dv.to_multiset().count(x) > 0);
            assert(kept_dv.contains(x));
            if ceiling_secs is Some {
                all.lemma_filter_contains_rev(time_pred(ceiling_secs.unwrap()), x);
            }
        }
    }
    Some(kept)
}

/// What the engine should do next with the ordered candidate list.
#[derive(Debug, Clone, Copy, PartialEq, Eq)]
pub enum EngineStep {
    /// The ordered sequence is exhausted: the run's one terminal state.
    Finished,
    /// The record at `index` costs more than the balance: passed over
    /// without ending the run, since a later, cheaper record may still be
    /// affordable.
    Skip { index: usize },
    /// The record at `index` is affordable: submit an entry for it.
    Attempt { index: usize },
}

/// The engine's walk over an ordered candidate list: a cursor and the
/// points balance.  The balance is server-authoritative: it starts from the
/// platform's displayed balance and changes only to a balance the server
/// returned after a successful submission, never by a local estimate.
pub struct EngineState {
    /// Index of the next candidate to consider.
    pub pos: usize,
    /// The points balance as last confirmed by the server.
    pub funds: u32,
}

impl EngineState {
    /// Starts a run with the platform's displayed balance.
    pub fn new(funds: u32) -> (s: EngineState)
        ensures
            s.pos == 0,
            s.funds == funds,
    {
        EngineState { pos: 0, funds }
    }

    /// Decides the next move and advances the cursor.  The balance is
    /// consulted, never changed: a candidate is attempted exactly when the
    /// balance covers its price.
    pub fn next_step(&mut self, giveaways: &Vec<Entry>) -> (a: EngineStep)
        ensures
            final(self).funds == old(self).funds,
            old(self).pos >= giveaways@.len() ==> a == EngineStep::Finished && final(self).pos
                == old(self).pos,
            old(self).pos < giveaways@.len() ==> {
                &&& final(self).pos == old(self).pos + 1
                &&& (giveaways@[old(self).pos as int].price <= old(self).funds ==> a == (
                EngineStep::Attempt { index: old(self).pos }))
                &&& (giveaways@[old(self).pos as int].price > old(self).funds ==> a == (
                EngineStep::Skip { index: old(self).pos }))
            },
    {
        if self.pos >= giveaways.len() {
            return EngineStep::Finished;
        }
        let idx = self.pos;
        self.pos = self.pos + 1;
        if giveaways[idx].price <= self.funds {
            EngineStep::Attempt { index: idx }
        } else {
            EngineStep::Skip { index: idx }
        }
    }

    /// Records a successful submission: the balance becomes the
    /// server-returned value — never the old balance minus the price, since
    /// the local copy must stay convergent with server truth.
    pub fn apply_success(&mut self, server_balance: u32)
        ensures
            final(self).pos == old(self).pos,
            final(self).funds == server_balance,
    {
        self.funds = server_balance;
    }

    /// Records a failed submission: the balance is untouched and the run
    /// carries on, since one rejected giveaway says nothing about the
    /// others.
    pub fn apply_failure(&mut self)
        ensures
            *final(self) == *old(self),
    {
    }
}

/// The balance after the engine has walked the first `k` candidates, when
/// the submission of candidate `n` — wherever it is attempted — ends with
/// `outcomes[n]`: the server-returned balance on success, nothing on
/// failure.
pub open spec fn spec_budget_after(
    g: Seq<EntryV>,
    outcomes: Seq<Option<u32>>,
    start: u32,
    k: int,
) -> u32
    decreases k,
{
    if k <= 0 {
        start
    } else {
        let b = spec_budget_after(g, outcomes, start, k - 1);
        if g[k - 1].price <= b {
            match outcomes[k - 1] {
                Option::Some(nb) => nb,
                Option::None => b,
            }
        } else {
            b
        }
    }
}

/// The indices the engine attempts among the first `k` candidates.
pub open spec fn spec_attempts(
    g: Seq<EntryV>,
    outcomes: Seq<Option<u32>>,
    start: u32,
    k: int,
) -> Seq<usize>
    decreases k,
{
    if k <= 0 {
        Seq::empty()
    } else {
        let pre = spec_attempts(g, outcomes, start, k - 1);
        if g[k - 1].price <= spec_budget_after(g, outcomes, start, k - 1) {
            pre.push((k - 1) as usize)
        } else {
            pre
        }
    }
}

/// Budget gating: a candidate is attempted exactly when the balance at its
/// turn covers its price; an unaffordable candidate is skipped without
/// ending the run; and after every step the balance is either unchanged or
/// exactly the server-returned balance of the attempted candidate.  The
/// balance is never decremented locally by a price and, being unsigned,
/// can never go negative.
pub proof fn lemma_budget_gating(g: Seq<EntryV>, outcomes: Seq<Option<u32>>, start: u32, k: int)
    requires
        0 <= k < g.len(),
    ensures
        g[k].price > spec_budget_after(g, outcomes, start, k) ==> spec_budget_after(
            g,
            outcomes,
            start,
            k + 1,
        ) == spec_budget_after(g, outcomes, start, k) && spec_attempts(g, outcomes, start, k + 1)
            == spec_attempts(g, outcomes, start, k),
        g[k].price <= spec_budget_after(g, outcomes, start, k) ==> spec_attempts(
            g,
            outcomes,
            start,
            k + 1,
        ) == spec_attempts(g, outcomes, start, k).push(k as usize),
        g[k].price <= spec_budget_after(g, outcomes, start, k) && outcomes[k] is None
            ==> spec_budget_after(g, outcomes, start, k + 1) == spec_budget_after(
            g,
            outcomes,
            start,
            k,
        ),
        g[k].price <= spec_budget_after(g, outcomes, start, k) && outcomes[k] is Some
            ==> spec_budget_after(g, outcomes, start, k + 1) == outcomes[k].unwrap(),
{
}

/// Walks an ordered candidate list against predetermined submission
/// outcomes and yields the attempted indices with the final balance.  This
/// is the run loop with its one suspension — the real submission — replaced
/// by a lookup: a caller performs one real submission per attempted index
/// and hands each result back through `outcomes`.
pub fn apply_outcomes(giveaways: &Vec<Entry>, start: u32, outcomes: &Vec<Option<u32>>) -> (r: (
    Vec<usize>,
    u32,
))
    requires
        giveaways@.len() == outcomes@.len(),
    ensures
        r.0@ == spec_attempts(giveaways.deep_view(), outcomes@, start, giveaways@.len() as int),
        r.1 == spec_budget_after(
            giveaways.deep_view(),
            outcomes@,
            start,
            giveaways@.len() as int,
        ),
{
    let mut state = EngineState::new(start);
    let mut attempts: Vec<usize> = Vec::new();
    while state.pos < giveaways.len()
        invariant
            giveaways@.len() == outcomes@.len(),
            state.pos <= giveaways@.len(),
            state.funds == spec_budget_after(
                giveaways.deep_view(),
                outcomes@,
                start,
                state.pos as int,
            ),
            attempts@ == spec_attempts(giveaways.deep_view(), outcomes@, start, state.pos as int),
        decreases giveaways@.len() - state.pos,
    {
        let ghost k = state.pos as int;
        let step = state.next_step(giveaways);
        proof {
            assert(giveaways.deep_view()[k] == giveaways@[k]@);
        }
        match step {
            EngineStep::Attempt { index } => {
                attempts.push(index);
                match outcomes[index] {
                    Option::Some(nb) => state.apply_success(nb),
                    Option::None => state.apply_failure(),
                }
            },
            _ => {},
        }
    }
    (attempts, state.funds)
}

} // verus!

