//! The event model that the grouping logic reads: tagged events, of which only logs
//! take part, each log holding its payload as path/value leaves and an estimated size.
use vstd::prelude::*;
use crate::config::text_of;

verus! {

/// An event handed to a sink. Only the `Log` variant is grouped.
#[derive(Clone, Debug)]
pub enum Event {
    Log(LogEvent),
    Metric,
    Trace,
}

/// A structured log event.
///
/// `fields` holds the payload's leaves: each entry is a dotted path (`metadata.plane`)
/// and the textual rendering of the value found there (a string renders quoted,
/// `"A"`; a number or a boolean in its standard form). `size` is the event's
/// estimated in-memory size in bytes, an approximation.
#[derive(Clone, Debug)]
pub struct LogEvent {
    pub fields: Vec<(String, String)>,
    pub size: usize,
}

/// Why a path lookup could not be made.
#[derive(Clone, Debug)]
pub enum PathError {
    /// The path is empty, or has an empty segment (a leading, trailing or doubled dot).
    Malformed,
}

/// A well-formed dotted path: not empty, and no segment of it empty.
pub open spec fn is_valid_path(p: Seq<char>) -> bool {
    &&& p.len() > 0
    &&& p[0] != '.'
    &&& p[p.len() - 1] != '.'
    &&& forall|i: int| 0 <= i < p.len() - 1 ==> !(#[trigger] p[i] == '.' && p[i + 1] == '.')
}

/// The rendering stored under path `p`: the first entry whose path is `p`.
pub open spec fn lookup(entries: Seq<(Seq<char>, Seq<char>)>, p: Seq<char>) -> Option<Seq<char>>
    decreases entries.len(),
{
    if entries.len() == 0 {
        None
    } else if entries[0].0 == p {
        Some(entries[0].1)
    } else {
        lookup(entries.drop_first(), p)
    }
}

/// Checks that `path` is a well-formed dotted path.
pub fn is_valid_path_exec(path: &str) -> (r: bool)
    ensures
        r == is_valid_path(path@),
{
    let n = path.unicode_len();
    if n == 0 {
        return false;
    }
    if path.get_char(0) == '.' || path.get_char(n - 1) == '.' {
        return false;
    }
    let mut i: usize = 0;
    while i < n - 1
        invariant
            n == path@.len(),
            n > 0,
            forall|j: int| 0 <= j < i ==> !(#[trigger] path@[j] == '.' && path@[j + 1] == '.'),
        decreases n - i,
    {
        if path.get_char(i) == '.' && path.get_char(i + 1) == '.' {
            return false;
        }
        i = i + 1;
    }
    true
}

impl LogEvent {
    /// The payload's entries as plain text.
    pub open spec fn entries(&self) -> Seq<(Seq<char>, Seq<char>)> {
        self.fields.deep_view()
    }

    /// Looks up the rendered value stored under `path`. A malformed path is an error;
    /// a well-formed path that holds no value gives `Ok(None)`.
    pub fn parse_path_and_get_value(&self, path: &String) -> (r: Result<Option<String>, PathError>)
        ensures
            r is Err <==> !is_valid_path(path@),
            r matches Ok(v) ==> text_of(v) == lookup(self.entries(), path@),
    {
        if !is_valid_path_exec(path.as_str()) {
            return Err(PathError::Malformed);
        }
        let n = self.fields.len();
        let mut i: usize = 0;
        assert(self.entries().subrange(0, n as int) =~= self.entries());
        while i < n
            invariant
                is_valid_path(path@),
                n == self.fields.len(),
                i <= n,
                lookup(self.entries(), path@) == lookup(self.entries().subrange(i as int, n as int), path@),
            decreases n - i,
        {
            proof {
                let rest = self.entries().subrange(i as int, n as int);
                assert(rest.drop_first() =~= self.entries().subrange(i + 1, n as int));
                assert(rest[0] == self.entries()[i as int]);
            }
            if self.fields[i].0 == *path {
                return Ok(Some(self.fields[i].1.clone()));
            }
            i = i + 1;
        }
        Ok(None)
    }
}

} // verus!
