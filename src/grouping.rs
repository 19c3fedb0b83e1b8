//! Field extraction, group keys and the fold of a batch into per-group statistics.
use vstd::prelude::*;
use crate::config::{GroupingConfig, KeyStyle, text_of};
use crate::event::{Event, LogEvent, lookup, is_valid_path};

verus! {

/// The path under which field `f` is looked up: `prefix.f`, or `f` alone when the
/// prefix is empty.
pub open spec fn field_path(prefix: Seq<char>, f: Seq<char>) -> Seq<char> {
    if prefix.len() == 0 {
        f
    } else {
        prefix + seq!['.'] + f
    }
}

/// A rendering with its wrapping quote characters stripped.
pub open spec fn strip_quotes(t: Seq<char>) -> Seq<char> {
    if t.len() >= 2 && t[0] == '"' && t[t.len() - 1] == '"' {
        t.subrange(1, t.len() - 1)
    } else {
        t
    }
}

/// The value extracted at `path`: absent where the path is malformed or holds nothing.
pub open spec fn extracted(entries: Seq<(Seq<char>, Seq<char>)>, path: Seq<char>) -> Option<Seq<char>> {
    if !is_valid_path(path) {
        None
    } else {
        match lookup(entries, path) {
            Some(t) => Some(strip_quotes(t)),
            None => None,
        }
    }
}

/// The key segment that field `f` with value `v` contributes.
pub open spec fn segment(style: KeyStyle, f: Seq<char>, v: Seq<char>) -> Seq<char> {
    match style {
        KeyStyle::Labelled => f + seq!['='] + v,
        KeyStyle::Bare => v,
    }
}

/// The character between the segments of a key.
pub open spec fn separator(style: KeyStyle) -> char {
    match style {
        KeyStyle::Labelled => '/',
        KeyStyle::Bare => ',',
    }
}

/// The segments of the key of an event with payload `entries`, one for each field
/// of `fields` whose value is present, in the order of `fields`.
pub open spec fn key_segments(
    style: KeyStyle,
    prefix: Seq<char>,
    fields: Seq<Seq<char>>,
    entries: Seq<(Seq<char>, Seq<char>)>,
) -> Seq<Seq<char>>
    decreases fields.len(),
{
    if fields.len() == 0 {
        Seq::empty()
    } else {
        let rest = key_segments(style, prefix, fields.drop_last(), entries);
        let f = fields.last();
        match extracted(entries, field_path(prefix, f)) {
            Some(v) => rest.push(segment(style, f, v)),
            None => rest,
        }
    }
}

/// The segments joined by `sep`.
pub open spec fn join(segs: Seq<Seq<char>>, sep: char) -> Seq<char>
    decreases segs.len(),
{
    if segs.len() == 0 {
        Seq::empty()
    } else if segs.len() == 1 {
        segs[0]
    } else {
        join(segs.drop_last(), sep) + seq![sep] + segs.last()
    }
}

/// The fields of a configuration as plain text.
pub open spec fn fields_of(cfg: &GroupingConfig) -> Seq<Seq<char>> {
    cfg.granularity_fields.deep_view()
}

/// The group key of an event with payload `entries` under `cfg`.
pub open spec fn group_key(cfg: &GroupingConfig, entries: Seq<(Seq<char>, Seq<char>)>) -> Seq<char> {
    join(
        key_segments(cfg.style, cfg.metadata_field@, fields_of(cfg), entries),
        separator(cfg.style),
    )
}

/// The field/value pairs of an event with payload `entries`: one for each field whose
/// value is present, in the order of `fields`, a repeated field taken once.
pub open spec fn value_pairs(
    prefix: Seq<char>,
    fields: Seq<Seq<char>>,
    entries: Seq<(Seq<char>, Seq<char>)>,
) -> Seq<(Seq<char>, Seq<char>)>
    decreases fields.len(),
{
    if fields.len() == 0 {
        Seq::empty()
    } else {
        let rest = value_pairs(prefix, fields.drop_last(), entries);
        let f = fields.last();
        match extracted(entries, field_path(prefix, f)) {
            Some(v) => if has_key(rest, f) {
                rest
            } else {
                rest.push((f, v))
            },
            None => rest,
        }
    }
}

/// Whether some pair of `pairs` has key `k`.
pub open spec fn has_key<V>(pairs: Seq<(Seq<char>, V)>, k: Seq<char>) -> bool {
    exists|i: int| 0 <= i < pairs.len() && #[trigger] pairs[i].0 == k
}

proof fn lemma_join_push(segs: Seq<Seq<char>>, s: Seq<char>, sep: char)
    ensures
        join(segs.push(s), sep) == if segs.len() == 0 {
            s
        } else {
            join(segs, sep) + seq![sep] + s
        },
{
    assert(segs.push(s).drop_last() =~= segs);
    if segs.len() == 0 {
        assert(segs.push(s)[0] == s);
    }
}

/// The lookup path of field `field` under `cfg`.
pub fn field_path_exec(cfg: &GroupingConfig, field: &String) -> (r: String)
    ensures
        r@ == field_path(cfg.metadata_field@, field@),
{
    if cfg.metadata_field.unicode_len() == 0 {
        field.clone()
    } else {
        let mut p = cfg.metadata_field.clone();
        p.append(".");
        p.append(field.as_str());
        proof {
            reveal_strlit(".");
        }
        p
    }
}

/// Strips the wrapping quote characters of a rendering.
pub fn strip_quotes_exec(t: String) -> (r: String)
    ensures
        r@ == strip_quotes(t@),
{
    let n = t.unicode_len();
    if n >= 2 && t.get_char(0) == '"' && t.get_char(n - 1) == '"' {
        String::from_str(t.as_str().substring_char(1, n - 1))
    } else {
        t
    }
}

/// The value of `event` at `path`, with wrapping quotes stripped. A malformed path, or
/// one that holds no value, gives `None`: absence is no error here.
pub fn extract(event: &LogEvent, path: &String) -> (r: Option<String>)
    ensures
        text_of(r) == extracted(event.entries(), path@),
{
    match event.parse_path_and_get_value(path) {
        Ok(Some(t)) => Some(strip_quotes_exec(t)),
        _ => None,
    }
}

/// The group key of `event`: for each configured field, in order, whose value is
/// present, its segment; the segments joined by the style's separator.
pub fn build_key(cfg: &GroupingConfig, event: &LogEvent) -> (r: String)
    ensures
        r@ == group_key(cfg, event.entries()),
{
    let ghost prefix = cfg.metadata_field@;
    let ghost fields = fields_of(cfg);
    let sep: &str = match cfg.style {
        KeyStyle::Labelled => "/",
        KeyStyle::Bare => ",",
    };
    proof {
        reveal_strlit("/");
        reveal_strlit(",");
    }
    let mut key = String::new();
    let mut n_segs: usize = 0;
    let n = cfg.granularity_fields.len();
    let mut i: usize = 0;
    while i < n
        invariant
            n == cfg.granularity_fields.len(),
            i <= n,
            fields == fields_of(cfg),
            prefix == cfg.metadata_field@,
            sep@ == seq![separator(cfg.style)],
            n_segs as nat == key_segments(cfg.style, prefix, fields.take(i as int), event.entries()).len(),
            n_segs <= i,
            key@ == join(key_segments(cfg.style, prefix, fields.take(i as int), event.entries()), separator(cfg.style)),
        decreases n - i,
    {
        let ghost segs = key_segments(cfg.style, prefix, fields.take(i as int), event.entries());
        assert(fields.take(i + 1).drop_last() =~= fields.take(i as int));
        assert(fields.take(i + 1).last() == cfg.granularity_fields[i as int]@);
        let field = &cfg.granularity_fields[i];
        let path = field_path_exec(cfg, field);
        match extract(event, &path) {
            Some(v) => {
                let seg = match cfg.style {
                    KeyStyle::Labelled => {
                        let mut s = field.clone();
                        s.append("=");
                        s.append(v.as_str());
                        s
                    },
                    KeyStyle::Bare => v,
                };
                proof {
                    reveal_strlit("=");
                    assert(seg@ == segment(cfg.style, field@, v@));
                    lemma_join_push(segs, seg@, separator(cfg.style));
                }
                if n_segs > 0 {
                    key.append(sep);
                }
                key.append(seg.as_str());
                n_segs = n_segs + 1;
            },
            None => {},
        }
        i = i + 1;
    }
    assert(fields.take(n as int) =~= fields);
    key
}

/// Finds the position of the pair with key `k`.
pub(crate) fn find_key<V>(pairs: &Vec<(String, V)>, k: &String) -> (r: Option<usize>)
    ensures
        match r {
            Some(j) => j < pairs@.len() && pairs@[j as int].0@ == k@,
            None => forall|j: int| 0 <= j < pairs@.len() ==> #[trigger] pairs@[j].0@ != k@,
        },
{
    let n = pairs.len();
    let mut i: usize = 0;
    while i < n
        invariant
            n == pairs@.len(),
            i <= n,
            forall|j: int| 0 <= j < i ==> #[trigger] pairs@[j].0@ != k@,
        decreases n - i,
    {
        if pairs[i].0 == *k {
            return Some(i);
        }
        i = i + 1;
    }
    None
}

/// The field/value pairs of `event`, built with the same extraction as its key.
pub fn build_map(cfg: &GroupingConfig, event: &LogEvent) -> (r: Vec<(String, String)>)
    ensures
        r.deep_view() == value_pairs(cfg.metadata_field@, fields_of(cfg), event.entries()),
{
    let ghost prefix = cfg.metadata_field@;
    let ghost fields = fields_of(cfg);
    let mut pairs: Vec<(String, String)> = Vec::new();
    let n = cfg.granularity_fields.len();
    let mut i: usize = 0;
    while i < n
        invariant
            n == cfg.granularity_fields.len(),
            i <= n,
            fields == fields_of(cfg),
            prefix == cfg.metadata_field@,
            pairs.deep_view() == value_pairs(prefix, fields.take(i as int), event.entries()),
        decreases n - i,
    {
        assert(fields.take(i + 1).drop_last() =~= fields.take(i as int));
        assert(fields.take(i + 1).last() == cfg.granularity_fields[i as int]@);
        let field = &cfg.granularity_fields[i];
        let path = field_path_exec(cfg, field);
        match extract(event, &path) {
            Some(v) => {
                let ghost before = pairs.deep_view();
                match find_key(&pairs, field) {
                    Some(j) => {
                        assert(before[j as int].0 == field@);
                    },
                    None => {
                        assert forall|j: int| 0 <= j < before.len() implies #[trigger] before[j].0 != field@ by {
                            assert(before[j].0 == pairs@[j].0@);
                        }
                        pairs.push((field.clone(), v));
                        assert(pairs.deep_view() =~= before.push((field@, v@)));
                    },
                }
            },
            None => {},
        }
        i = i + 1;
    }
    assert(fields.take(n as int) =~= fields);
    pairs
}

/// Count, size and field values of one group of events.
#[derive(Clone, Debug)]
pub struct MetadataValuesCount {
    /// The field values of the first event of the group.
    pub value_map: Vec<(String, String)>,
    /// How many events the group holds.
    pub count: usize,
    /// The sum of their estimated sizes.
    pub size: usize,
}

/// The key of an event, where it is a log.
pub open spec fn log_key(cfg: &GroupingConfig, e: Event) -> Option<Seq<char>> {
    match e {
        Event::Log(l) => Some(group_key(cfg, l.entries())),
        _ => None,
    }
}

/// The number of log events of `events`.
pub open spec fn log_count(events: Seq<Event>) -> nat
    decreases events.len(),
{
    if events.len() == 0 {
        0
    } else {
        log_count(events.drop_last()) + if events.last() is Log { 1nat } else { 0nat }
    }
}

/// The summed estimated size of the log events of `events`.
pub open spec fn log_size(events: Seq<Event>) -> nat
    decreases events.len(),
{
    if events.len() == 0 {
        0
    } else {
        log_size(events.drop_last()) + match events.last() {
            Event::Log(l) => l.size as nat,
            _ => 0nat,
        }
    }
}

/// The number of log events of `events` whose key is `k`.
pub open spec fn group_count(cfg: &GroupingConfig, events: Seq<Event>, k: Seq<char>) -> nat
    decreases events.len(),
{
    if events.len() == 0 {
        0
    } else {
        group_count(cfg, events.drop_last(), k) + if log_key(cfg, events.last()) == Some(k) {
            1nat
        } else {
            0nat
        }
    }
}

/// The summed estimated size of the log events of `events` whose key is `k`.
pub open spec fn group_size(cfg: &GroupingConfig, events: Seq<Event>, k: Seq<char>) -> nat
    decreases events.len(),
{
    if events.len() == 0 {
        0
    } else {
        group_size(cfg, events.drop_last(), k) + match events.last() {
            Event::Log(l) => if group_key(cfg, l.entries()) == k {
                l.size as nat
            } else {
                0nat
            },
            _ => 0nat,
        }
    }
}

/// The field values of the first log event of `events` whose key is `k`.
pub open spec fn first_value_map(cfg: &GroupingConfig, events: Seq<Event>, k: Seq<char>) -> Seq<(Seq<char>, Seq<char>)>
    decreases events.len(),
{
    if events.len() == 0 {
        Seq::empty()
    } else if group_count(cfg, events.drop_last(), k) > 0 {
        first_value_map(cfg, events.drop_last(), k)
    } else {
        match events.last() {
            Event::Log(l) => value_pairs(cfg.metadata_field@, fields_of(cfg), l.entries()),
            _ => Seq::empty(),
        }
    }
}

/// The sum of the counts of all groups.
pub open spec fn total_count(groups: Seq<(String, MetadataValuesCount)>) -> nat
    decreases groups.len(),
{
    if groups.len() == 0 {
        0
    } else {
        total_count(groups.drop_last()) + groups.last().1.count as nat
    }
}

/// `groups` is the aggregation of `events` under `cfg`: one entry for each key of a log
/// event, with that key's count, summed size and first-seen field values.
pub open spec fn aggregates(cfg: &GroupingConfig, events: Seq<Event>, groups: Seq<(String, MetadataValuesCount)>) -> bool {
    &&& forall|i: int, j: int| 0 <= i < j < groups.len() ==> #[trigger] groups[i].0@ != #[trigger] groups[j].0@
    &&& forall|i: int| 0 <= i < groups.len() ==> {
        let k = (#[trigger] groups[i]).0@;
        &&& group_count(cfg, events, k) > 0
        &&& groups[i].1.count == group_count(cfg, events, k)
        &&& groups[i].1.size == group_size(cfg, events, k)
        &&& groups[i].1.value_map.deep_view() == first_value_map(cfg, events, k)
    }
    &&& forall|k: Seq<char>| #[trigger] group_count(cfg, events, k) > 0 ==> exists|i: int| 0 <= i < groups.len() && groups[i].0@ == k
}

pub(crate) proof fn lemma_group_bounds(cfg: &GroupingConfig, events: Seq<Event>, k: Seq<char>)
    ensures
        group_count(cfg, events, k) <= events.len(),
        group_size(cfg, events, k) <= log_size(events),
        group_count(cfg, events, k) == 0 ==> group_size(cfg, events, k) == 0,
    decreases events.len(),
{
    if events.len() > 0 {
        lemma_group_bounds(cfg, events.drop_last(), k);
    }
}

proof fn lemma_log_size_prefix(events: Seq<Event>, i: int)
    requires
        0 <= i <= events.len(),
    ensures
        log_size(events.take(i)) <= log_size(events),
    decreases events.len() - i,
{
    if i < events.len() {
        lemma_log_size_prefix(events, i + 1);
        assert(events.take(i + 1).drop_last() =~= events.take(i));
    } else {
        assert(events.take(i) =~= events);
    }
}

proof fn lemma_total_count_update(groups: Seq<(String, MetadataValuesCount)>, j: int, x: (String, MetadataValuesCount))
    requires
        0 <= j < groups.len(),
    ensures
        total_count(groups.update(j, x)) + groups[j].1.count == total_count(groups) + x.1.count,
    decreases groups.len(),
{
    if j < groups.len() - 1 {
        assert(groups.update(j, x).drop_last() =~= groups.drop_last().update(j, x));
        lemma_total_count_update(groups.drop_last(), j, x);
    } else {
        assert(groups.update(j, x).drop_last() =~= groups.drop_last());
    }
}

/// Folds `events` into one entry per group key. Only log events take part: a new key
/// starts a group with count 1, the event's size and its field values; a known key adds
/// 1 to the count and the event's size to the size, and keeps the first field values.
/// The counts of all groups sum to the number of log events.
pub fn generate_count_map(cfg: &GroupingConfig, events: &Vec<Event>) -> (r: Vec<(String, MetadataValuesCount)>)
    requires
        log_size(events@) <= usize::MAX,
    ensures
        aggregates(cfg, events@, r@),
        total_count(r@) == log_count(events@),
{
    let mut groups: Vec<(String, MetadataValuesCount)> = Vec::new();
    let n = events.len();
    let mut i: usize = 0;
    while i < n
        invariant
            n == events@.len(),
            i <= n,
            log_size(events@) <= usize::MAX,
            aggregates(cfg, events@.take(i as int), groups@),
            total_count(groups@) == log_count(events@.take(i as int)),
        decreases n - i,
    {
        let ghost prev = events@.take(i as int);
        let ghost next = events@.take(i + 1);
        let ghost before = groups@;
        assert(next.drop_last() =~= prev);
        assert(next.last() == events@[i as int]);
        match &events[i] {
            Event::Log(l) => {
                let key = build_key(cfg, l);
                proof {
                    lemma_log_size_prefix(events@, i + 1);
                    lemma_group_bounds(cfg, next, key@);
                    lemma_group_bounds(cfg, prev, key@);
                }
                let ghost mut jk: int = 0;
                match find_key(&groups, &key) {
                    Some(j) => {
                        proof {
                            jk = j as int;
                        }
                        let c = groups[j].1.count;
                        let sz = groups[j].1.size;
                        groups[j].1.count = c + 1;
                        groups[j].1.size = sz + l.size;
                        proof {
                            lemma_total_count_update(before, j as int, groups@[j as int]);
                            assert(groups@ == before.update(j as int, groups@[j as int]));
                        }
                    },
                    None => {
                        let stats = MetadataValuesCount { value_map: build_map(cfg, l), count: 1, size: l.size };
                        proof {
                            jk = groups@.len() as int;
                        }
                        groups.push((key, stats));
                        assert(groups@.drop_last() =~= before);
                        assert(group_count(cfg, prev, key@) == 0);
                    },
                }
                assert(groups@[jk].0@ == key@);
                assert(log_key(cfg, next.last()) == Some(key@));
                assert(group_count(cfg, next, key@) == group_count(cfg, prev, key@) + 1);
                assert(group_size(cfg, next, key@) == group_size(cfg, prev, key@) + l.size);
                assert(groups@[jk].1.count == group_count(cfg, next, key@));
                assert(groups@[jk].1.size == group_size(cfg, next, key@));
                assert(groups@[jk].1.value_map.deep_view() == first_value_map(cfg, next, key@));
                assert forall|a: int| 0 <= a < groups@.len() && a != jk implies #[trigger] groups@[a] == before[a]
                    && groups@[a].0@ != key@ by {
                    if a < before.len() {
                        assert(before[a].0@ != key@ || a == jk);
                    }
                }
                assert forall|a: int, b: int| 0 <= a < b < groups@.len() implies #[trigger] groups@[a].0@
                    != #[trigger] groups@[b].0@ by {
                    if a != jk && b != jk {
                        assert(before[a].0@ != before[b].0@);
                    }
                }
                assert forall|a: int| 0 <= a < groups@.len() implies {
                    let k = (#[trigger] groups@[a]).0@;
                    &&& group_count(cfg, next, k) > 0
                    &&& groups@[a].1.count == group_count(cfg, next, k)
                    &&& groups@[a].1.size == group_size(cfg, next, k)
                    &&& groups@[a].1.value_map.deep_view() == first_value_map(cfg, next, k)
                } by {
                    let k = groups@[a].0@;
                    if a != jk {
                        assert(before[a].0@ == k);
                        assert(group_count(cfg, prev, k) > 0);
                    }
                }
                assert forall|k: Seq<char>| #[trigger] group_count(cfg, next, k) > 0 implies exists|j: int|
                    0 <= j < groups@.len() && groups@[j].0@ == k by {
                    if k != key@ {
                        assert(group_count(cfg, prev, k) > 0);
                        let j0 = choose|j: int| 0 <= j < before.len() && before[j].0@ == k;
                        assert(groups@[j0].0@ == k);
                    } else {
                        assert(groups@[jk].0@ == k);
                    }
                }
            },
            _ => {
                assert forall|k: Seq<char>| #[trigger] group_count(cfg, next, k) > 0 implies exists|j: int|
                    0 <= j < groups@.len() && groups@[j].0@ == k by {
                    assert(group_count(cfg, prev, k) > 0);
                }
            },
        }
        i = i + 1;
    }
    assert(events@.take(n as int) =~= events@);
    groups
}

/// The summed estimated size of the log events of `events`, or `None` where it does
/// not fit in a `usize`.
pub fn checked_log_size(events: &Vec<Event>) -> (r: Option<usize>)
    ensures
        match r {
            Some(t) => t == log_size(events@),
            None => log_size(events@) > usize::MAX,
        },
{
    let n = events.len();
    let mut total: usize = 0;
    let mut i: usize = 0;
    while i < n
        invariant
            n == events@.len(),
            i <= n,
            total == log_size(events@.take(i as int)),
        decreases n - i,
    {
        assert(events@.take(i + 1).drop_last() =~= events@.take(i as int));
        assert(events@.take(i + 1).last() == events@[i as int]);
        if let Event::Log(l) = &events[i] {
            if total > usize::MAX - l.size {
                proof {
                    lemma_log_size_prefix(events@, i + 1);
                }
                return None;
            }
            total = total + l.size;
        }
        i = i + 1;
    }
    assert(events@.take(n as int) =~= events@);
    Some(total)
}

} // verus!
