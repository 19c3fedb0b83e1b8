//! Properties of grouping that relate several events, batches or calls.
use vstd::prelude::*;
use crate::config::GroupingConfig;
use crate::event::{Event, LogEvent, lookup};
use crate::grouping::{
    MetadataValuesCount, lemma_group_bounds, aggregates, extracted, field_path, fields_of, group_count, group_key, group_size, key_segments,
    log_count,
};

verus! {

proof fn lemma_segments_agree(
    cfg: &GroupingConfig,
    fields: Seq<Seq<char>>,
    e1: Seq<(Seq<char>, Seq<char>)>,
    e2: Seq<(Seq<char>, Seq<char>)>,
)
    requires
        forall|f: Seq<char>| #[trigger] fields.contains(f) ==> extracted(e1, field_path(cfg.metadata_field@, f))
            == extracted(e2, field_path(cfg.metadata_field@, f)),
    ensures
        key_segments(cfg.style, cfg.metadata_field@, fields, e1) == key_segments(cfg.style, cfg.metadata_field@, fields, e2),
    decreases fields.len(),
{
    if fields.len() > 0 {
        assert forall|f: Seq<char>| #[trigger] fields.drop_last().contains(f) implies fields.contains(f) by {
            let j = choose|j: int| 0 <= j < fields.drop_last().len() && fields.drop_last()[j] == f;
            assert(fields[j] == f);
        }
        lemma_segments_agree(cfg, fields.drop_last(), e1, e2);
        assert(fields[fields.len() - 1] == fields.last());
        assert(fields.contains(fields.last()));
    }
}

/// Two log events whose extracted values agree on every configured field have the same
/// group key.
pub proof fn lemma_same_values_same_key(cfg: &GroupingConfig, e1: LogEvent, e2: LogEvent)
    requires
        forall|f: Seq<char>| #[trigger] fields_of(cfg).contains(f) ==> extracted(e1.entries(), field_path(cfg.metadata_field@, f))
            == extracted(e2.entries(), field_path(cfg.metadata_field@, f)),
    ensures
        group_key(cfg, e1.entries()) == group_key(cfg, e2.entries()),
{
    lemma_segments_agree(cfg, fields_of(cfg), e1.entries(), e2.entries());
}

proof fn lemma_no_fields_counts(cfg: &GroupingConfig, events: Seq<Event>, k: Seq<char>)
    requires
        fields_of(cfg).len() == 0,
    ensures
        group_count(cfg, events, k) == if k == Seq::<char>::empty() { log_count(events) } else { 0 },
    decreases events.len(),
{
    if events.len() > 0 {
        lemma_no_fields_counts(cfg, events.drop_last(), k);
        if let Event::Log(l) = events.last() {
            assert(group_key(cfg, l.entries()) == Seq::<char>::empty());
        }
    }
}

/// With no configured fields every log event has the empty key, and a batch that holds
/// any log event aggregates into exactly one group, which counts them all.
pub proof fn lemma_no_fields_single_group(
    cfg: &GroupingConfig,
    events: Seq<Event>,
    groups: Seq<(String, MetadataValuesCount)>,
)
    requires
        fields_of(cfg).len() == 0,
        aggregates(cfg, events, groups),
        log_count(events) > 0,
    ensures
        forall|l: LogEvent| group_key(cfg, #[trigger] l.entries()) == Seq::<char>::empty(),
        groups.len() == 1,
        groups[0].0@ == Seq::<char>::empty(),
        groups[0].1.count == log_count(events),
{
    lemma_no_fields_counts(cfg, events, Seq::<char>::empty());
    assert(group_count(cfg, events, Seq::<char>::empty()) > 0);
    let j = choose|j: int| 0 <= j < groups.len() && groups[j].0@ == Seq::<char>::empty();
    assert forall|a: int| 0 <= a < groups.len() implies #[trigger] groups[a].0@ == Seq::<char>::empty() by {
        lemma_no_fields_counts(cfg, events, groups[a].0@);
    }
    if groups.len() > 1 {
        assert(groups[0].0@ == groups[1].0@);
    }
    lemma_no_fields_counts(cfg, events, groups[0].0@);
}

/// Aggregating a batch split in two and adding the per-key counts and sizes gives what
/// aggregating the whole batch gives.
pub proof fn lemma_split_batch(cfg: &GroupingConfig, a: Seq<Event>, b: Seq<Event>, k: Seq<char>)
    ensures
        group_count(cfg, a + b, k) == group_count(cfg, a, k) + group_count(cfg, b, k),
        group_size(cfg, a + b, k) == group_size(cfg, a, k) + group_size(cfg, b, k),
    decreases b.len(),
{
    if b.len() == 0 {
        assert(a + b =~= a);
    } else {
        assert((a + b).drop_last() =~= a + b.drop_last());
        assert((a + b).last() == b.last());
        lemma_split_batch(cfg, a, b.drop_last(), k);
    }
}

/// Whether `path` lies under the root `root`.
pub open spec fn under_root(path: Seq<char>, root: Seq<char>) -> bool {
    &&& path.len() > root.len()
    &&& path.subrange(0, root.len() as int) == root
    &&& path[root.len() as int] == '.'
}

proof fn lemma_lookup_absent(entries: Seq<(Seq<char>, Seq<char>)>, p: Seq<char>)
    requires
        forall|i: int| 0 <= i < entries.len() ==> #[trigger] entries[i].0 != p,
    ensures
        lookup(entries, p) is None,
    decreases entries.len(),
{
    if entries.len() > 0 {
        assert forall|i: int| 0 <= i < entries.drop_first().len() implies #[trigger] entries.drop_first()[i].0 != p by {
            assert(entries.drop_first()[i] == entries[i + 1]);
        }
        lemma_lookup_absent(entries.drop_first(), p);
    }
}

proof fn lemma_missing_root_segments(cfg: &GroupingConfig, fields: Seq<Seq<char>>, entries: Seq<(Seq<char>, Seq<char>)>)
    requires
        cfg.metadata_field@.len() > 0,
        forall|i: int| 0 <= i < entries.len() ==> !under_root(#[trigger] entries[i].0, cfg.metadata_field@),
    ensures
        key_segments(cfg.style, cfg.metadata_field@, fields, entries).len() == 0,
    decreases fields.len(),
{
    if fields.len() > 0 {
        lemma_missing_root_segments(cfg, fields.drop_last(), entries);
        let root = cfg.metadata_field@;
        let p = field_path(root, fields.last());
        assert(p.subrange(0, root.len() as int) =~= root);
        assert(p[root.len() as int] == '.');
        lemma_lookup_absent(entries, p);
    }
}

/// A log event with nothing under the configured root still gets a key, the empty one,
/// and is counted in that group: it is never dropped.
pub proof fn lemma_missing_root_counted(
    cfg: &GroupingConfig,
    events: Seq<Event>,
    groups: Seq<(String, MetadataValuesCount)>,
    i: int,
)
    requires
        cfg.metadata_field@.len() > 0,
        aggregates(cfg, events, groups),
        0 <= i < events.len(),
        events[i] is Log,
        forall|j: int| 0 <= j < events[i]->Log_0.entries().len() ==> !under_root(
            #[trigger] events[i]->Log_0.entries()[j].0,
            cfg.metadata_field@,
        ),
    ensures
        group_key(cfg, events[i]->Log_0.entries()) == Seq::<char>::empty(),
        exists|j: int| 0 <= j < groups.len() && groups[j].0@ == Seq::<char>::empty() && groups[j].1.count >= 1,
{
    let entries = events[i]->Log_0.entries();
    lemma_missing_root_segments(cfg, fields_of(cfg), entries);
    lemma_split_batch(cfg, events.take(i + 1), events.skip(i + 1), Seq::<char>::empty());
    assert(events.take(i + 1) + events.skip(i + 1) =~= events);
    assert(events.take(i + 1).last() == events[i]);
    assert(group_count(cfg, events, Seq::<char>::empty()) > 0);
    let j = choose|j: int| 0 <= j < groups.len() && groups[j].0@ == Seq::<char>::empty();
    assert(groups[j].1.count >= 1);
}

/// Whether `groups` has an entry with key `k`.
pub open spec fn has_group(groups: Seq<(String, MetadataValuesCount)>, k: Seq<char>) -> bool {
    exists|i: int| 0 <= i < groups.len() && #[trigger] groups[i].0@ == k
}

/// The count of the entry of `groups` with key `k`, or 0 where there is none.
pub open spec fn count_at(groups: Seq<(String, MetadataValuesCount)>, k: Seq<char>) -> nat {
    if has_group(groups, k) {
        groups[choose|i: int| 0 <= i < groups.len() && #[trigger] groups[i].0@ == k].1.count as nat
    } else {
        0
    }
}

/// The size of the entry of `groups` with key `k`, or 0 where there is none.
pub open spec fn size_at(groups: Seq<(String, MetadataValuesCount)>, k: Seq<char>) -> nat {
    if has_group(groups, k) {
        groups[choose|i: int| 0 <= i < groups.len() && #[trigger] groups[i].0@ == k].1.size as nat
    } else {
        0
    }
}

proof fn lemma_aggregate_lookup(
    cfg: &GroupingConfig,
    events: Seq<Event>,
    groups: Seq<(String, MetadataValuesCount)>,
    k: Seq<char>,
)
    requires
        aggregates(cfg, events, groups),
    ensures
        has_group(groups, k) <==> group_count(cfg, events, k) > 0,
        count_at(groups, k) == group_count(cfg, events, k),
        size_at(groups, k) == group_size(cfg, events, k),
{
    lemma_group_bounds(cfg, events, k);
    if has_group(groups, k) {
        let i = choose|i: int| 0 <= i < groups.len() && #[trigger] groups[i].0@ == k;
        assert(groups[i].1.count == group_count(cfg, events, k));
    } else if group_count(cfg, events, k) > 0 {
        let i = choose|i: int| 0 <= i < groups.len() && groups[i].0@ == k;
        assert(groups[i].0@ == k);
    }
}

/// Aggregating a batch split in two, then adding the per-key counts and sizes of the
/// two results, gives the result of aggregating the whole batch: a key has a group in
/// the whole exactly when it has one in either part, with the summed count and size.
pub proof fn lemma_split_aggregates(
    cfg: &GroupingConfig,
    a: Seq<Event>,
    b: Seq<Event>,
    ga: Seq<(String, MetadataValuesCount)>,
    gb: Seq<(String, MetadataValuesCount)>,
    g: Seq<(String, MetadataValuesCount)>,
)
    requires
        aggregates(cfg, a, ga),
        aggregates(cfg, b, gb),
        aggregates(cfg, a + b, g),
    ensures
        forall|k: Seq<char>| #[trigger] has_group(g, k) <==> has_group(ga, k) || has_group(gb, k),
        forall|k: Seq<char>| #[trigger] count_at(g, k) == count_at(ga, k) + count_at(gb, k),
        forall|k: Seq<char>| #[trigger] size_at(g, k) == size_at(ga, k) + size_at(gb, k),
{
    assert forall|k: Seq<char>| #[trigger] has_group(g, k) <==> has_group(ga, k) || has_group(gb, k) by {
        lemma_split_batch(cfg, a, b, k);
        lemma_aggregate_lookup(cfg, a, ga, k);
        lemma_aggregate_lookup(cfg, b, gb, k);
        lemma_aggregate_lookup(cfg, a + b, g, k);
    }
    assert forall|k: Seq<char>| #[trigger] count_at(g, k) == count_at(ga, k) + count_at(gb, k) by {
        lemma_split_batch(cfg, a, b, k);
        lemma_aggregate_lookup(cfg, a, ga, k);
        lemma_aggregate_lookup(cfg, b, gb, k);
        lemma_aggregate_lookup(cfg, a + b, g, k);
    }
    assert forall|k: Seq<char>| #[trigger] size_at(g, k) == size_at(ga, k) + size_at(gb, k) by {
        lemma_split_batch(cfg, a, b, k);
        lemma_aggregate_lookup(cfg, a, ga, k);
        lemma_aggregate_lookup(cfg, b, gb, k);
        lemma_aggregate_lookup(cfg, a + b, g, k);
    }
}

} // verus!
