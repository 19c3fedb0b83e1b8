//! The structured diagnostic records that report batches and their groups.
use vstd::prelude::*;
use crate::config::text_of;
use crate::grouping::MetadataValuesCount;

verus! {

/// The record type of a granularity report.
pub const GRANULARITY_EVENT_TYPE: usize = 1;

/// The record type of a batch about to be sent.
pub const SENDING_EVENT_TYPE: usize = 3;

/// The record type of a batch that was uploaded.
pub const UPLOADED_EVENT_TYPE: usize = 4;

/// One structured diagnostic record. A field that a record does not carry is `None`.
#[derive(Clone, Debug)]
pub struct DiagnosticRecord {
    pub message: String,
    pub vector_event_type: usize,
    /// The group's field values, as a JSON object.
    pub keys: Option<String>,
    /// The count of each group key, as a JSON object.
    pub map: Option<String>,
    pub bytes: Option<usize>,
    pub events_len: Option<usize>,
    pub blob: Option<String>,
    pub container: Option<String>,
}

/// The JSON text that serde_json makes of a map from field names to values.
pub uninterp spec fn json_of_value_map(pairs: Seq<(Seq<char>, Seq<char>)>) -> Seq<char>;

/// The JSON text that serde_json makes of a map from group keys to counts.
pub uninterp spec fn json_of_count_map(pairs: Seq<(Seq<char>, usize)>) -> Seq<char>;

/// Relies on `serde_json::to_string` of a `BTreeMap<&str, &str>`: a JSON object of the
/// pairs, keys in sorted order, so the text depends on the pairs alone. It cannot fail:
/// serialization fails only on a failing `Serialize` impl or a map key that is not a
/// string, and the `Vec` it writes to never fails.
#[verifier::external_body]
fn value_map_json(pairs: &Vec<(String, String)>) -> (r: Option<String>)
    ensures
        r is Some,
        r matches Some(t) ==> t@ == json_of_value_map(pairs.deep_view()),
{
    let m: std::collections::BTreeMap<&str, &str> = pairs.iter().map(|p| (p.0.as_str(), p.1.as_str())).collect();
    serde_json::to_string(&m).ok()
}

/// Relies on `serde_json::to_string` of a `BTreeMap<&str, usize>`: a JSON object of the
/// pairs, keys in sorted order, so the text depends on the pairs alone. It cannot fail,
/// for the same reasons as for the field values.
#[verifier::external_body]
fn count_map_json(pairs: &Vec<(String, usize)>) -> (r: Option<String>)
    ensures
        r is Some,
        r matches Some(t) ==> t@ == json_of_count_map(pairs.deep_view()),
{
    let m: std::collections::BTreeMap<&str, usize> = pairs.iter().map(|p| (p.0.as_str(), p.1)).collect();
    serde_json::to_string(&m).ok()
}

/// Counts and sizes per group of one batch, with the batch's identification.
#[derive(Clone, Debug)]
pub struct VectorEventLogSendMetadata {
    pub bytes: usize,
    pub events_len: usize,
    pub blob: String,
    pub container: String,
    pub count_map: Vec<(String, MetadataValuesCount)>,
}

/// `rec` reports group `g` of a batch stored in `blob`/`container`, with the group's
/// field values serialized as a JSON object.
pub open spec fn reports_group(
    rec: DiagnosticRecord,
    message: Seq<char>,
    event_type: usize,
    g: MetadataValuesCount,
    blob: Seq<char>,
    container: Seq<char>,
) -> bool {
    &&& rec.message@ == message
    &&& rec.vector_event_type == event_type
    &&& rec.keys matches Some(t) && t@ == json_of_value_map(g.value_map.deep_view())
    &&& rec.map is None
    &&& rec.bytes == Some(g.size)
    &&& rec.events_len == Some(g.count)
    &&& text_of(rec.blob) == Some(blob)
    &&& text_of(rec.container) == Some(container)
}

impl VectorEventLogSendMetadata {
    /// One record per group, tagged as uploaded.
    pub fn emit_upload_event(&self) -> (r: Vec<DiagnosticRecord>)
        ensures
            r.len() == self.count_map.len(),
            forall|i: int| 0 <= i < r.len() ==> reports_group(#[trigger] r[i], "Uploaded events."@,
                UPLOADED_EVENT_TYPE, self.count_map[i].1, self.blob@, self.container@),
    {
        self.emit_count_map("Uploaded events.", UPLOADED_EVENT_TYPE)
    }

    /// One record per group, tagged as about to be sent.
    pub fn emit_sending_event(&self) -> (r: Vec<DiagnosticRecord>)
        ensures
            r.len() == self.count_map.len(),
            forall|i: int| 0 <= i < r.len() ==> reports_group(#[trigger] r[i], "Sending events."@,
                SENDING_EVENT_TYPE, self.count_map[i].1, self.blob@, self.container@),
    {
        self.emit_count_map("Sending events.", SENDING_EVENT_TYPE)
    }

    /// One record per group, in the order of `count_map`.
    fn emit_count_map(&self, message: &str, event_type: usize) -> (r: Vec<DiagnosticRecord>)
        ensures
            r.len() == self.count_map.len(),
            forall|i: int| 0 <= i < r.len() ==> reports_group(#[trigger] r[i], message@, event_type,
                self.count_map[i].1, self.blob@, self.container@),
    {
        let mut records: Vec<DiagnosticRecord> = Vec::new();
        let n = self.count_map.len();
        let mut i: usize = 0;
        while i < n
            invariant
                n == self.count_map.len(),
                i <= n,
                records.len() == i,
                forall|j: int| 0 <= j < i ==> reports_group(#[trigger] records[j], message@, event_type,
                    self.count_map[j].1, self.blob@, self.container@),
            decreases n - i,
        {
            let g = &self.count_map[i].1;
            let rec = DiagnosticRecord {
                message: String::from_str(message),
                vector_event_type: event_type,
                keys: value_map_json(&g.value_map),
                map: None,
                bytes: Some(g.size),
                events_len: Some(g.count),
                blob: Some(self.blob.clone()),
                container: Some(self.container.clone()),
            };
            records.push(rec);
            i = i + 1;
        }
        records
    }
}

/// Counts per group key of one batch, with the batch's size and identification.
#[derive(Clone, Debug)]
pub struct VectorSendEventMetadata {
    pub bytes: usize,
    pub events_len: usize,
    pub blob: String,
    pub container: String,
    pub count_map: Vec<(String, usize)>,
}

impl VectorSendEventMetadata {
    /// `rec` reports the whole batch under `message` and `event_type`.
    pub open spec fn reports_batch(&self, rec: DiagnosticRecord, message: Seq<char>, event_type: usize) -> bool {
        &&& rec.message@ == message
        &&& rec.vector_event_type == event_type
        &&& rec.keys is None
        &&& rec.map is None
        &&& rec.bytes == Some(self.bytes)
        &&& rec.events_len == Some(self.events_len)
        &&& text_of(rec.blob) == Some(self.blob@)
        &&& text_of(rec.container) == Some(self.container@)
    }

    fn batch_record(&self, message: &str, event_type: usize) -> (r: DiagnosticRecord)
        ensures
            self.reports_batch(r, message@, event_type),
    {
        DiagnosticRecord {
            message: String::from_str(message),
            vector_event_type: event_type,
            keys: None,
            map: None,
            bytes: Some(self.bytes),
            events_len: Some(self.events_len),
            blob: Some(self.blob.clone()),
            container: Some(self.container.clone()),
        }
    }

    /// One record for the uploaded batch.
    pub fn emit_upload_event(&self) -> (r: Vec<DiagnosticRecord>)
        ensures
            r.len() == 1,
            self.reports_batch(r[0], "Uploaded events."@, UPLOADED_EVENT_TYPE),
    {
        let mut records: Vec<DiagnosticRecord> = Vec::new();
        records.push(self.batch_record("Uploaded events.", UPLOADED_EVENT_TYPE));
        records
    }

    /// Two records for a batch about to be sent: the batch itself, then the count of
    /// each group key as a JSON object (`map`).
    pub fn emit_sending_event(&self) -> (r: Vec<DiagnosticRecord>)
        ensures
            r.len() == 2,
            self.reports_batch(r[0], "Sending events."@, SENDING_EVENT_TYPE),
            r[1].message@ == "Test granularity change."@,
            r[1].vector_event_type == GRANULARITY_EVENT_TYPE,
            r[1].map matches Some(t) && t@ == json_of_count_map(self.count_map.deep_view()),
            r[1].keys is None,
            r[1].bytes is None,
            r[1].events_len is None,
            r[1].blob is None,
            r[1].container is None,
    {
        let mut records: Vec<DiagnosticRecord> = Vec::new();
        records.push(self.batch_record("Sending events.", SENDING_EVENT_TYPE));
        records.push(DiagnosticRecord {
            message: String::from_str("Test granularity change."),
            vector_event_type: GRANULARITY_EVENT_TYPE,
            keys: None,
            map: count_map_json(&self.count_map),
            bytes: None,
            events_len: None,
            blob: None,
            container: None,
        });
        records
    }
}

} // verus!
