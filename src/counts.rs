//! The plain variant of the aggregation: one count per group key, without sizes or
//! field values.
use vstd::prelude::*;
use crate::config::GroupingConfig;
use crate::event::Event;
pub use crate::grouping::build_key;
use crate::grouping::{find_key, group_count, log_count};

verus! {

/// The sum of the counts of `counts`.
pub open spec fn count_sum(counts: Seq<(String, usize)>) -> nat
    decreases counts.len(),
{
    if counts.len() == 0 {
        0
    } else {
        count_sum(counts.drop_last()) + counts.last().1 as nat
    }
}

/// `counts` holds, once for each key of a log event of `events`, the number of log
/// events with that key.
pub open spec fn counts_events(cfg: &GroupingConfig, events: Seq<Event>, counts: Seq<(String, usize)>) -> bool {
    &&& forall|i: int, j: int| 0 <= i < j < counts.len() ==> #[trigger] counts[i].0@ != #[trigger] counts[j].0@
    &&& forall|i: int| 0 <= i < counts.len() ==> {
        let k = (#[trigger] counts[i]).0@;
        &&& group_count(cfg, events, k) > 0
        &&& counts[i].1 == group_count(cfg, events, k)
    }
    &&& forall|k: Seq<char>| #[trigger] group_count(cfg, events, k) > 0 ==> exists|i: int| 0 <= i < counts.len() && counts[i].0@ == k
}

proof fn lemma_count_bound(cfg: &GroupingConfig, events: Seq<Event>, k: Seq<char>)
    ensures
        group_count(cfg, events, k) <= events.len(),
    decreases events.len(),
{
    if events.len() > 0 {
        lemma_count_bound(cfg, events.drop_last(), k);
    }
}

proof fn lemma_count_sum_update(counts: Seq<(String, usize)>, j: int, x: (String, usize))
    requires
        0 <= j < counts.len(),
    ensures
        count_sum(counts.update(j, x)) + counts[j].1 == count_sum(counts) + x.1,
    decreases counts.len(),
{
    if j < counts.len() - 1 {
        assert(counts.update(j, x).drop_last() =~= counts.drop_last().update(j, x));
        lemma_count_sum_update(counts.drop_last(), j, x);
    } else {
        assert(counts.update(j, x).drop_last() =~= counts.drop_last());
    }
}

/// Counts the log events of `events` per group key; other events are skipped. The
/// counts sum to the number of log events.
pub fn generate_count_map(cfg: &GroupingConfig, events: &Vec<Event>) -> (r: Vec<(String, usize)>)
    ensures
        counts_events(cfg, events@, r@),
        count_sum(r@) == log_count(events@),
{
    let mut counts: Vec<(String, usize)> = Vec::new();
    let n = events.len();
    let mut i: usize = 0;
    while i < n
        invariant
            n == events@.len(),
            i <= n,
            counts_events(cfg, events@.take(i as int), counts@),
            count_sum(counts@) == log_count(events@.take(i as int)),
        decreases n - i,
    {
        let ghost prev = events@.take(i as int);
        let ghost next = events@.take(i + 1);
        let ghost before = counts@;
        assert(next.drop_last() =~= prev);
        assert(next.last() == events@[i as int]);
        match &events[i] {
            Event::Log(l) => {
                let key = build_key(cfg, l);
                proof {
                    lemma_count_bound(cfg, next, key@);
                }
                let ghost mut jk: int = 0;
                match find_key(&counts, &key) {
                    Some(j) => {
                        proof {
                            jk = j as int;
                        }
                        let c = counts[j].1;
                        counts[j].1 = c + 1;
                        proof {
                            lemma_count_sum_update(before, j as int, counts@[j as int]);
                            assert(counts@ == before.update(j as int, counts@[j as int]));
                        }
                    },
                    None => {
                        proof {
                            jk = counts@.len() as int;
                        }
                        counts.push((key, 1));
                        assert(counts@.drop_last() =~= before);
                        assert(group_count(cfg, prev, key@) == 0);
                    },
                }
                assert(counts@[jk].0@ == key@);
                assert(group_count(cfg, next, key@) == group_count(cfg, prev, key@) + 1);
                assert forall|a: int| 0 <= a < counts@.len() && a != jk implies #[trigger] counts@[a] == before[a]
                    && counts@[a].0@ != key@ by {
                    if a < before.len() {
                        assert(before[a].0@ != key@ || a == jk);
                    }
                }
                assert forall|a: int, b: int| 0 <= a < b < counts@.len() implies #[trigger] counts@[a].0@
                    != #[trigger] counts@[b].0@ by {
                    if a != jk && b != jk {
                        assert(before[a].0@ != before[b].0@);
                    }
                }
                assert forall|a: int| 0 <= a < counts@.len() implies {
                    let k = (#[trigger] counts@[a]).0@;
                    &&& group_count(cfg, next, k) > 0
                    &&& counts@[a].1 == group_count(cfg, next, k)
                } by {
                    let k = counts@[a].0@;
                    if a != jk {
                        assert(before[a].0@ == k);
                        assert(group_count(cfg, prev, k) > 0);
                    }
                }
                assert forall|k: Seq<char>| #[trigger] group_count(cfg, next, k) > 0 implies exists|j: int|
                    0 <= j < counts@.len() && counts@[j].0@ == k by {
                    if k != key@ {
                        assert(group_count(cfg, prev, k) > 0);
                        let j0 = choose|j: int| 0 <= j < before.len() && before[j].0@ == k;
                        assert(counts@[j0].0@ == k);
                    } else {
                        assert(counts@[jk].0@ == k);
                    }
                }
            },
            _ => {
                assert forall|k: Seq<char>| #[trigger] group_count(cfg, next, k) > 0 implies exists|j: int|
                    0 <= j < counts@.len() && counts@[j].0@ == k by {
                    assert(group_count(cfg, prev, k) > 0);
                }
            },
        }
        i = i + 1;
    }
    assert(events@.take(n as int) =~= events@);
    counts
}

} // verus!
