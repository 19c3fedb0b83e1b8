//! The grouping configuration: which fields group events and how keys are spelled.
//! It is resolved once from raw configuration text and then passed by reference.
use vstd::prelude::*;

verus! {

/// How a group key is spelled.
#[derive(Clone, Copy, Debug, PartialEq, Eq, Structural)]
pub enum KeyStyle {
    /// Segments `field=value`, joined by `/`.
    Labelled,
    /// Bare values, joined by `,`.
    Bare,
}

/// The fields that events are grouped by.
///
/// `metadata_field` is the root path under which the grouping fields live (it may be
/// empty); `granularity_fields` are the path suffixes, in the order in which they
/// appear in every key.
#[derive(Clone, Debug)]
pub struct GroupingConfig {
    pub metadata_field: String,
    pub granularity_fields: Vec<String>,
    pub style: KeyStyle,
}

/// What serde_json makes of a text that should encode a JSON array of strings:
/// the strings, or `None` where the text is no such array.
pub uninterp spec fn decoded_field_list(text: Seq<char>) -> Option<Seq<Seq<char>>>;

/// Relies on `serde_json::from_str::<Vec<String>>`: it decodes a JSON array of strings,
/// and fails on any other text; its outcome depends on the text alone.
#[verifier::external_body]
fn decode_field_list(text: &str) -> (r: Option<Vec<String>>)
    ensures
        match r {
            Some(v) => decoded_field_list(text@) == Some(v.deep_view()),
            None => decoded_field_list(text@) is None,
        },
{
    serde_json::from_str::<Vec<String>>(text).ok()
}

/// The field list that an optional encoded configuration value resolves to: absent
/// or malformed configuration gives the empty list.
pub open spec fn resolved_field_list(encoded: Option<Seq<char>>) -> Seq<Seq<char>> {
    match encoded {
        Some(t) => match decoded_field_list(t) {
            Some(l) => l,
            None => Seq::empty(),
        },
        None => Seq::empty(),
    }
}

/// Resolves the encoded list of grouping fields (a JSON array of strings). Absent or
/// malformed input degrades to no grouping fields; the order of the list is kept.
pub fn resolve_field_list(encoded: Option<String>) -> (r: Vec<String>)
    ensures
        r.deep_view() == resolved_field_list(text_of(encoded)),
{
    match encoded {
        Some(t) => match decode_field_list(t.as_str()) {
            Some(v) => v,
            None => Vec::new(),
        },
        None => Vec::new(),
    }
}

/// The text held by an optional string.
pub open spec fn text_of(o: Option<String>) -> Option<Seq<char>> {
    match o {
        Some(s) => Some(s@),
        None => None,
    }
}

impl GroupingConfig {
    /// The configuration of the metadata-scoped grouping: fields under the root
    /// `metadata_field` (empty when absent), keys spelled `field=value` joined by `/`.
    pub fn resolve(metadata_field: Option<String>, encoded_fields: Option<String>) -> (r: GroupingConfig)
        ensures
            r.metadata_field@ == match metadata_field {
                Some(m) => m@,
                None => Seq::<char>::empty(),
            },
            r.granularity_fields.deep_view() == resolved_field_list(text_of(encoded_fields)),
            r.style == KeyStyle::Labelled,
    {
        let root = match metadata_field {
            Some(m) => m,
            None => String::new(),
        };
        GroupingConfig {
            metadata_field: root,
            granularity_fields: resolve_field_list(encoded_fields),
            style: KeyStyle::Labelled,
        }
    }

    /// The configuration of the plain grouping: full paths, keys spelled as bare values
    /// joined by `,`.
    pub fn resolve_bare(encoded_keys: Option<String>) -> (r: GroupingConfig)
        ensures
            r.metadata_field@ == Seq::<char>::empty(),
            r.granularity_fields.deep_view() == resolved_field_list(text_of(encoded_keys)),
            r.style == KeyStyle::Bare,
    {
        GroupingConfig {
            metadata_field: String::new(),
            granularity_fields: resolve_field_list(encoded_keys),
            style: KeyStyle::Bare,
        }
    }
}

} // verus!
