use event_granularity::config::{resolve_field_list, GroupingConfig, KeyStyle};
use event_granularity::emit::{
    VectorEventLogSendMetadata, VectorSendEventMetadata, GRANULARITY_EVENT_TYPE, SENDING_EVENT_TYPE,
    UPLOADED_EVENT_TYPE,
};
use event_granularity::event::{Event, LogEvent, PathError};
use event_granularity::grouping::{build_key, build_map, checked_log_size, extract, generate_count_map};
use event_granularity::counts;

fn log(fields: &[(&str, &str)], size: usize) -> LogEvent {
    LogEvent {
        fields: fields.iter().map(|(p, v)| (p.to_string(), v.to_string())).collect(),
        size,
    }
}

fn plane(v: &str, size: usize) -> Event {
    Event::Log(log(&[("metadata.plane", v)], size))
}

fn metadata_config(fields: &str) -> GroupingConfig {
    GroupingConfig::resolve(Some("metadata".to_string()), Some(fields.to_string()))
}

fn find<'a, T>(groups: &'a [(String, T)], key: &str) -> Option<&'a T> {
    groups.iter().find(|(k, _)| k == key).map(|(_, v)| v)
}

#[test]
fn two_planes_make_two_groups() {
    let cfg = metadata_config("[\"plane\"]");
    let events = vec![plane("\"A\"", 10), plane("\"A\"", 20), plane("\"B\"", 5)];
    let groups = generate_count_map(&cfg, &events);
    assert_eq!(groups.len(), 2);
    let a = find(&groups, "plane=A").unwrap();
    assert_eq!(a.count, 2);
    assert_eq!(a.size, 30);
    assert_eq!(a.value_map, vec![("plane".to_string(), "A".to_string())]);
    let b = find(&groups, "plane=B").unwrap();
    assert_eq!(b.count, 1);
    assert_eq!(b.size, 5);
}

#[test]
fn malformed_config_collapses_to_one_group() {
    let cfg = metadata_config("plane, tenant");
    assert!(cfg.granularity_fields.is_empty());
    let events = vec![plane("\"A\"", 1), plane("\"A\"", 1), plane("\"B\"", 1)];
    let groups = generate_count_map(&cfg, &events);
    assert_eq!(groups.len(), 1);
    assert_eq!(groups[0].0, "");
    assert_eq!(groups[0].1.count, 3);
}

#[test]
fn absent_config_resolves_to_no_fields() {
    let cfg = GroupingConfig::resolve(None, None);
    assert_eq!(cfg.metadata_field, "");
    assert!(cfg.granularity_fields.is_empty());
    assert!(cfg.style == KeyStyle::Labelled);
}

#[test]
fn field_list_order_is_kept() {
    let fields = resolve_field_list(Some("[\"tenant\",\"plane\"]".to_string()));
    assert_eq!(fields, vec!["tenant".to_string(), "plane".to_string()]);
    assert!(resolve_field_list(Some("".to_string())).is_empty());
    assert!(resolve_field_list(Some("[1, 2]".to_string())).is_empty());
    assert!(resolve_field_list(Some("[]".to_string())).is_empty());
}

#[test]
fn non_log_events_are_skipped() {
    let cfg = metadata_config("[\"plane\"]");
    let events = vec![Event::Metric, plane("\"A\"", 4), Event::Trace];
    let groups = generate_count_map(&cfg, &events);
    assert_eq!(groups.len(), 1);
    assert_eq!(groups[0].0, "plane=A");
    assert_eq!(groups[0].1.count, 1);
    assert_eq!(groups[0].1.size, 4);
}

#[test]
fn empty_batch_gives_no_groups() {
    let cfg = metadata_config("[\"plane\"]");
    assert!(generate_count_map(&cfg, &Vec::new()).is_empty());
    assert!(counts::generate_count_map(&cfg, &Vec::new()).is_empty());
}

#[test]
fn counts_sum_to_log_events() {
    let cfg = metadata_config("[\"plane\",\"tenant\"]");
    let events = vec![
        Event::Log(log(&[("metadata.plane", "\"A\""), ("metadata.tenant", "7")], 1)),
        Event::Log(log(&[("metadata.plane", "\"A\"")], 1)),
        Event::Metric,
        Event::Log(log(&[("metadata.tenant", "7")], 1)),
        Event::Log(log(&[], 1)),
        plane("\"A\"", 1),
    ];
    let groups = generate_count_map(&cfg, &events);
    let total: usize = groups.iter().map(|(_, g)| g.count).sum();
    assert_eq!(total, 5);
    assert_eq!(find(&groups, "plane=A/tenant=7").unwrap().count, 1);
    assert_eq!(find(&groups, "plane=A").unwrap().count, 2);
    assert_eq!(find(&groups, "tenant=7").unwrap().count, 1);
    assert_eq!(find(&groups, "").unwrap().count, 1);
}

#[test]
fn same_values_give_same_key() {
    let cfg = metadata_config("[\"plane\"]");
    let e1 = log(&[("metadata.plane", "\"A\""), ("other", "1")], 3);
    let e2 = log(&[("other", "2"), ("metadata.plane", "A")], 9);
    assert_eq!(build_key(&cfg, &e1), build_key(&cfg, &e2));
    assert_eq!(build_key(&cfg, &e1), "plane=A");
}

#[test]
fn no_fields_gives_one_group() {
    let cfg = metadata_config("[]");
    let events = vec![plane("\"A\"", 2), plane("\"B\"", 3), Event::Log(log(&[("x", "1")], 4))];
    let groups = generate_count_map(&cfg, &events);
    assert_eq!(groups.len(), 1);
    assert_eq!(groups[0].0, "");
    assert_eq!(groups[0].1.count, 3);
    assert_eq!(groups[0].1.size, 9);
    assert!(groups[0].1.value_map.is_empty());
}

#[test]
fn split_batch_sums_match_whole() {
    let cfg = metadata_config("[\"plane\"]");
    let first = vec![plane("\"A\"", 1), plane("\"B\"", 2)];
    let second = vec![plane("\"A\"", 4), plane("\"A\"", 8)];
    let mut whole = first.clone();
    whole.extend(second.clone());
    let g1 = generate_count_map(&cfg, &first);
    let g2 = generate_count_map(&cfg, &second);
    let g = generate_count_map(&cfg, &whole);
    let a1 = find(&g1, "plane=A").unwrap();
    let a2 = find(&g2, "plane=A").unwrap();
    let a = find(&g, "plane=A").unwrap();
    assert_eq!(a.count, a1.count + a2.count);
    assert_eq!(a.size, a1.size + a2.size);
    assert_eq!(a.count, 3);
    assert_eq!(a.size, 13);
}

#[test]
fn missing_root_is_counted_under_empty_key() {
    let cfg = metadata_config("[\"plane\"]");
    let events = vec![Event::Log(log(&[("labels.plane", "\"A\"")], 6)), plane("\"A\"", 1)];
    let groups = generate_count_map(&cfg, &events);
    assert_eq!(groups.len(), 2);
    assert_eq!(find(&groups, "").unwrap().count, 1);
    assert_eq!(find(&groups, "").unwrap().size, 6);
}

#[test]
fn first_seen_values_are_kept() {
    let cfg = metadata_config("[\"plane\"]");
    let events = vec![plane("\"A\"", 1), plane("A", 1)];
    let groups = generate_count_map(&cfg, &events);
    assert_eq!(groups.len(), 1);
    assert_eq!(groups[0].1.count, 2);
    assert_eq!(groups[0].1.value_map, vec![("plane".to_string(), "A".to_string())]);
}

#[test]
fn extraction_strips_wrapping_quotes() {
    let e = log(&[("metadata.plane", "\"A\""), ("metadata.n", "42"), ("metadata.ok", "true"), ("metadata.q", "\"")], 0);
    assert_eq!(extract(&e, &"metadata.plane".to_string()), Some("A".to_string()));
    assert_eq!(extract(&e, &"metadata.n".to_string()), Some("42".to_string()));
    assert_eq!(extract(&e, &"metadata.ok".to_string()), Some("true".to_string()));
    assert_eq!(extract(&e, &"metadata.q".to_string()), Some("\"".to_string()));
    assert_eq!(extract(&e, &"metadata.none".to_string()), None);
}

#[test]
fn malformed_paths_are_errors_and_absent() {
    let e = log(&[("a..b", "1")], 0);
    assert!(matches!(e.parse_path_and_get_value(&"a..b".to_string()), Err(PathError::Malformed)));
    assert!(matches!(e.parse_path_and_get_value(&".a".to_string()), Err(PathError::Malformed)));
    assert!(matches!(e.parse_path_and_get_value(&"a.".to_string()), Err(PathError::Malformed)));
    assert!(matches!(e.parse_path_and_get_value(&"".to_string()), Err(PathError::Malformed)));
    assert!(matches!(e.parse_path_and_get_value(&"a".to_string()), Ok(None)));
    assert_eq!(extract(&e, &"a..b".to_string()), None);
}

#[test]
fn keys_follow_configured_order() {
    let cfg = metadata_config("[\"tenant\",\"missing\",\"plane\"]");
    let e = log(&[("metadata.plane", "\"P\""), ("metadata.tenant", "\"T\"")], 0);
    assert_eq!(build_key(&cfg, &e), "tenant=T/plane=P");
    assert_eq!(
        build_map(&cfg, &e),
        vec![("tenant".to_string(), "T".to_string()), ("plane".to_string(), "P".to_string())]
    );
}

#[test]
fn repeated_field_appears_once_in_map() {
    let cfg = metadata_config("[\"plane\",\"plane\"]");
    let e = log(&[("metadata.plane", "\"P\"")], 0);
    assert_eq!(build_key(&cfg, &e), "plane=P/plane=P");
    assert_eq!(build_map(&cfg, &e), vec![("plane".to_string(), "P".to_string())]);
}

#[test]
fn empty_root_looks_up_bare_field() {
    let cfg = GroupingConfig::resolve(None, Some("[\"plane\"]".to_string()));
    let e = log(&[("plane", "\"A\"")], 0);
    assert_eq!(build_key(&cfg, &e), "plane=A");
}

#[test]
fn bare_keys_join_values_with_commas() {
    let cfg = GroupingConfig::resolve_bare(Some("[\"metadata.plane\",\"metadata.tenant\"]".to_string()));
    assert!(cfg.style == KeyStyle::Bare);
    let e = log(&[("metadata.plane", "\"A\""), ("metadata.tenant", "3")], 0);
    assert_eq!(build_key(&cfg, &e), "A,3");
}

#[test]
fn bare_counts_per_key() {
    let cfg = GroupingConfig::resolve_bare(Some("[\"metadata.plane\"]".to_string()));
    let events = vec![plane("\"A\"", 1), Event::Metric, plane("\"A\"", 1), plane("\"B\"", 1)];
    let counts = counts::generate_count_map(&cfg, &events);
    assert_eq!(counts.len(), 2);
    assert_eq!(find(&counts, "A"), Some(&2));
    assert_eq!(find(&counts, "B"), Some(&1));
}

#[test]
fn log_size_total_and_overflow() {
    let events = vec![plane("\"A\"", 5), Event::Metric, plane("\"B\"", 7)];
    assert_eq!(checked_log_size(&events), Some(12));
    let big = vec![plane("\"A\"", usize::MAX), plane("\"B\"", 1)];
    assert_eq!(checked_log_size(&big), None);
    assert_eq!(checked_log_size(&Vec::new()), Some(0));
}

#[test]
fn group_records_carry_serialized_values() {
    let cfg = metadata_config("[\"plane\",\"tenant\"]");
    let events = vec![
        Event::Log(log(&[("metadata.tenant", "\"t1\""), ("metadata.plane", "\"A\"")], 10)),
        Event::Log(log(&[("metadata.tenant", "\"t1\""), ("metadata.plane", "\"A\"")], 5)),
    ];
    let meta = VectorEventLogSendMetadata {
        bytes: 15,
        events_len: 2,
        blob: "blob-1".to_string(),
        container: "logs".to_string(),
        count_map: generate_count_map(&cfg, &events),
    };
    let up = meta.emit_upload_event();
    assert_eq!(up.len(), 1);
    assert_eq!(up[0].message, "Uploaded events.");
    assert_eq!(up[0].vector_event_type, UPLOADED_EVENT_TYPE);
    assert_eq!(up[0].vector_event_type, 4);
    assert_eq!(up[0].keys.as_deref(), Some("{\"plane\":\"A\",\"tenant\":\"t1\"}"));
    assert_eq!(up[0].bytes, Some(15));
    assert_eq!(up[0].events_len, Some(2));
    assert_eq!(up[0].blob.as_deref(), Some("blob-1"));
    assert_eq!(up[0].container.as_deref(), Some("logs"));
    assert!(up[0].map.is_none());
    let sending = meta.emit_sending_event();
    assert_eq!(sending.len(), 1);
    assert_eq!(sending[0].message, "Sending events.");
    assert_eq!(sending[0].vector_event_type, SENDING_EVENT_TYPE);
    assert_eq!(sending[0].vector_event_type, 3);
}

#[test]
fn batch_records_report_the_batch() {
    let meta = VectorSendEventMetadata {
        bytes: 100,
        events_len: 3,
        blob: "b".to_string(),
        container: "c".to_string(),
        count_map: vec![("B".to_string(), 1), ("A".to_string(), 2)],
    };
    let up = meta.emit_upload_event();
    assert_eq!(up.len(), 1);
    assert_eq!(up[0].message, "Uploaded events.");
    assert_eq!(up[0].vector_event_type, 4);
    assert_eq!(up[0].bytes, Some(100));
    assert_eq!(up[0].events_len, Some(3));
    assert!(up[0].keys.is_none());
    let sending = meta.emit_sending_event();
    assert_eq!(sending.len(), 2);
    assert_eq!(sending[0].message, "Sending events.");
    assert_eq!(sending[0].vector_event_type, 3);
    assert_eq!(sending[0].blob.as_deref(), Some("b"));
    assert_eq!(sending[1].message, "Test granularity change.");
    assert_eq!(sending[1].vector_event_type, GRANULARITY_EVENT_TYPE);
    assert_eq!(sending[1].vector_event_type, 1);
    assert_eq!(sending[1].map.as_deref(), Some("{\"A\":2,\"B\":1}"));
    assert!(sending[1].blob.is_none());
}
