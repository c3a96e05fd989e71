//! The record threaded through a run: the target url, the raw content,
//! and the two key/value maps a run fills.

use vstd::prelude::*;
use crate::strmap::StrMap;
use crate::json::{JsonValue, JsonValueView};

verus! {

/// The per-run context.  Created fresh at the start of every run,
/// mutated by each stage in order, and discarded on failure.
#[derive(Debug)]
pub struct ScrapedData {
    /// The target url.
    pub url: String,
    /// The raw fetched content; empty until a fetch stage runs.
    pub html: String,
    /// Scalar bookkeeping written by stages (status indicators and the
    /// like), last write wins.
    pub metadata: StrMap<String>,
    /// Structured extraction results, last write wins.
    pub extracted: StrMap<JsonValue>,
}

/// The spec-level shape of a [`ScrapedData`]: both maps appear as their
/// ordered entry sequences.
#[verifier::ext_equal]
pub struct RecordView {
    pub url: Seq<char>,
    pub html: Seq<char>,
    pub metadata: Seq<(Seq<char>, Seq<char>)>,
    pub extracted: Seq<(Seq<char>, JsonValueView)>,
}

impl View for ScrapedData {
    type V = RecordView;

    open spec fn view(&self) -> RecordView {
        RecordView {
            url: self.url@,
            html: self.html@,
            metadata: self.metadata@,
            extracted: self.extracted@,
        }
    }
}

/// The record a run starts from: the url, the given raw content, and
/// both maps empty.
pub open spec fn fresh_record(url: Seq<char>, html: Seq<char>) -> RecordView {
    RecordView { url, html, metadata: Seq::empty(), extracted: Seq::empty() }
}

impl ScrapedData {
    /// A record with empty maps.
    pub fn new(url: String, html: String) -> (r: Self)
        ensures
            r@ == fresh_record(url@, html@),
    {
        ScrapedData { url, html, metadata: StrMap::new(), extracted: StrMap::new() }
    }
}

} // verus!
