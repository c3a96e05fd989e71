//! JSON extraction: parses the raw content as JSON and stores the
//! sub-document under a dot-separated path, or the whole document when
//! the path is empty.

use vstd::prelude::*;
use vstd::string::StringExecFns;
use crate::types::{ScrapedData, RecordView};
use crate::error::{LuminaError, ErrorView};
use crate::json::{JsonValue, JsonValueView};
use crate::jsondoc::{
    json_err, json_tree, json_dump, doc_model, tree_child, tree_walk, parse_json, json_child,
    json_text_of,
};
use crate::strmap::upsert;
use crate::strutil::{split_dots, split_path};
use crate::nodes::step_view;

verus! {

/// Picks a sub-document of JSON content by a dot-separated path.
#[derive(Debug)]
pub struct JsonNode {
    path: String,
}

impl View for JsonNode {
    type V = Seq<char>;

    closed spec fn view(&self) -> Seq<char> {
        self.path@
    }
}

/// The effect of the JSON stage: content that is not JSON stops the
/// stage with the parse error's text; an empty path stores the whole
/// document's text under the key `json`; otherwise the path names a
/// chain of object keys, and a missing step stops the stage.
pub open spec fn json_apply(path: Seq<char>, d: RecordView) -> Result<RecordView, ErrorView> {
    match json_err(d.html) {
        Some(e) => Err(ErrorView::Parse("Invalid JSON: "@ + e)),
        None => {
            if path.len() == 0 {
                Ok(RecordView {
                    url: d.url,
                    html: d.html,
                    metadata: d.metadata,
                    extracted: upsert(
                        d.extracted,
                        "json"@,
                        JsonValueView::Raw(json_dump(json_tree(d.html))),
                    ),
                })
            } else {
                match tree_walk(json_tree(d.html), split_dots(path)) {
                    Some(t) => Ok(RecordView {
                        url: d.url,
                        html: d.html,
                        metadata: d.metadata,
                        extracted: upsert(d.extracted, path, JsonValueView::Raw(json_dump(t))),
                    }),
                    None => Err(ErrorView::Parse("Path not found: "@ + path)),
                }
            }
        },
    }
}

impl JsonNode {
    /// A stage over this dot-separated path; empty means the whole
    /// document.
    pub fn new(path: String) -> (r: Self)
        ensures
            r@ == path@,
    {
        JsonNode { path }
    }

    /// Parses the record's raw content and picks the sub-document.
    pub fn execute(&self, data: ScrapedData) -> (r: Result<ScrapedData, LuminaError>)
        ensures
            step_view(r) == json_apply(self@, data@),
    {
        let mut d = data;
        let ghost dpre = d@;
        let doc = match parse_json(d.html.as_str()) {
            Ok(v) => v,
            Err(e) => {
                let mut msg = String::from_str("Invalid JSON: ");
                msg.append(e.as_str());
                return Err(LuminaError::ParseError(msg));
            },
        };
        if self.path.as_str().is_empty() {
            let text = json_text_of(&doc);
            d.extracted.insert(String::from_str("json"), JsonValue::Raw(text));
            proof {
                assert(d@ =~= (RecordView {
                    url: dpre.url,
                    html: dpre.html,
                    metadata: dpre.metadata,
                    extracted: upsert(
                        dpre.extracted,
                        "json"@,
                        JsonValueView::Raw(json_dump(json_tree(dpre.html))),
                    ),
                }));
            }
            Ok(d)
        } else {
            let parts = split_path(self.path.as_str());
            let ghost pv = split_dots(self@);
            let mut cur = doc;
            let n = parts.len();
            let mut i: usize = 0;
            proof {
                assert(pv.skip(0) =~= pv);
            }
            while i < n
                invariant
                    dpre == data@,
                    json_err(dpre.html) is None,
                    pv == split_dots(self@),
                    self@.len() != 0,
                    i <= n,
                    n == parts@.len(),
                    parts.deep_view().len() == n,
                    forall|j: int| 0 <= j < n ==> parts.deep_view()[j] == parts@[j]@,
                    parts.deep_view() == pv,
                    tree_walk(json_tree(dpre.html), pv) == tree_walk(
                        doc_model(cur),
                        pv.skip(i as int),
                    ),
                decreases n - i,
            {
                proof {
                    assert(pv.skip(i as int)[0] == pv[i as int]);
                    assert(pv.skip(i as int).skip(1) =~= pv.skip(i as int + 1));
                }
                match json_child(&cur, parts[i].as_str()) {
                    Some(c) => {
                        cur = c;
                    },
                    None => {
                        let mut msg = String::from_str("Path not found: ");
                        msg.append(self.path.as_str());
                        return Err(LuminaError::ParseError(msg));
                    },
                }
                i += 1;
            }
            proof {
                assert(pv.skip(n as int) =~= Seq::<Seq<char>>::empty());
            }
            let text = json_text_of(&cur);
            d.extracted.insert(self.path.clone(), JsonValue::Raw(text));
            proof {
                let t = tree_walk(json_tree(dpre.html), pv)->Some_0;
                assert(d@ =~= (RecordView {
                    url: dpre.url,
                    html: dpre.html,
                    metadata: dpre.metadata,
                    extracted: upsert(dpre.extracted, self@, JsonValueView::Raw(json_dump(t))),
                }));
            }
            Ok(d)
        }
    }
}

} // verus!
