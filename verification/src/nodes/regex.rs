//! Pattern extraction: each `(key, pattern)` pair stores every match of
//! the pattern in the raw content under its key.

use vstd::prelude::*;
use vstd::string::StringExecFns;
use crate::types::{ScrapedData, RecordView};
use crate::error::{LuminaError, ErrorView};
use crate::json::{JsonValue, JsonValueView};
use crate::strmap::{upsert, upsert_all};
use crate::nodes::step_view;

verus! {

/// What `regex::Regex::new` says about a pattern: `None` when the
/// pattern compiles, otherwise the error's display text.  The result
/// depends on the pattern text alone.
pub uninterp spec fn re_error(pat: Seq<char>) -> Option<Seq<char>>;

/// Every non-overlapping match of a valid pattern in a text, leftmost
/// first, as `regex::Regex::find_iter` yields them.  The result depends
/// on the pattern and text alone.
pub uninterp spec fn re_matches(pat: Seq<char>, text: Seq<char>) -> Seq<Seq<char>>;

/// Relies on `regex::Regex::new` (its error is returned as text) and
/// `regex::Regex::find_iter`: collects every match of the pattern, in
/// order; nothing is filtered or reordered here.
#[verifier::external_body]
fn regex_find_all(pat: &str, text: &str) -> (r: Result<Vec<String>, String>)
    ensures
        r is Ok <==> re_error(pat@) is None,
        r matches Ok(v) ==> v.deep_view() == re_matches(pat@, text@),
        r matches Err(e) ==> re_error(pat@) == Some(e@),
{
    match regex::Regex::new(pat) {
        Ok(re) => Ok(re.find_iter(text).map(|m| m.as_str().to_string()).collect()),
        Err(e) => Err(e.to_string()),
    }
}

/// Extracts pattern matches into keyed string lists.
#[derive(Debug)]
pub struct RegexNode {
    patterns: Vec<(String, String)>,
}

impl View for RegexNode {
    type V = Seq<(Seq<char>, Seq<char>)>;

    closed spec fn view(&self) -> Seq<(Seq<char>, Seq<char>)> {
        self.patterns.deep_view()
    }
}

/// The effect of a `(key, pattern)` list on the record: in order, each
/// valid pattern stores its matches under its key; the first invalid
/// pattern stops the stage with a parse error wrapping the compile
/// error's text.
pub open spec fn regex_apply(pats: Seq<(Seq<char>, Seq<char>)>, d: RecordView) -> Result<
    RecordView,
    ErrorView,
>
    decreases pats.len(),
{
    if pats.len() == 0 {
        Ok(d)
    } else {
        match re_error(pats[0].1) {
            Some(e) => Err(ErrorView::Parse("Invalid regex: "@ + e)),
            None => {
                let vals = re_matches(pats[0].1, d.html);
                let d2 = RecordView {
                    url: d.url,
                    html: d.html,
                    metadata: d.metadata,
                    extracted: upsert(d.extracted, pats[0].0, JsonValueView::Texts(vals)),
                };
                regex_apply(pats.skip(1), d2)
            },
        }
    }
}

/// The writes a `(key, pattern)` list performs.
pub open spec fn re_write_list(pats: Seq<(Seq<char>, Seq<char>)>, html: Seq<char>) -> Seq<
    (Seq<char>, JsonValueView),
> {
    Seq::new(pats.len(), |i: int| (pats[i].0, JsonValueView::Texts(re_matches(pats[i].1, html))))
}

/// A successful pattern list changes exactly the extraction map, by
/// its write list, and nothing else.
pub proof fn lemma_regex_writes(pats: Seq<(Seq<char>, Seq<char>)>, d: RecordView)
    requires
        regex_apply(pats, d) is Ok,
    ensures
        regex_apply(pats, d)->Ok_0.extracted == upsert_all(d.extracted, re_write_list(
            pats,
            d.html,
        )),
        regex_apply(pats, d)->Ok_0.html == d.html,
        regex_apply(pats, d)->Ok_0.url == d.url,
        regex_apply(pats, d)->Ok_0.metadata == d.metadata,
    decreases pats.len(),
{
    let ws = re_write_list(pats, d.html);
    if pats.len() == 0 {
    } else {
        let d2 = RecordView {
            url: d.url,
            html: d.html,
            metadata: d.metadata,
            extracted: upsert(
                d.extracted,
                pats[0].0,
                JsonValueView::Texts(re_matches(pats[0].1, d.html)),
            ),
        };
        lemma_regex_writes(pats.skip(1), d2);
        assert(ws[0] == (pats[0].0, JsonValueView::Texts(re_matches(pats[0].1, d.html))));
        assert(ws.skip(1) =~= re_write_list(pats.skip(1), d2.html));
    }
}

impl RegexNode {
    /// A stage over these `(key, pattern)` pairs.
    pub fn new(patterns: Vec<(String, String)>) -> (r: Self)
        ensures
            r@ == patterns.deep_view(),
    {
        RegexNode { patterns }
    }

    /// The stage extended by one more pair.
    pub fn with_pattern(self, key: String, pattern: String) -> (r: Self)
        ensures
            r@ == self@.push((key@, pattern@)),
    {
        let mut patterns = self.patterns;
        patterns.push((key, pattern));
        proof {
            assert(patterns.deep_view() =~= self@.push((key@, pattern@)));
        }
        RegexNode { patterns }
    }

    /// Runs every pattern against the record's raw content.
    pub fn execute(&self, data: ScrapedData) -> (r: Result<ScrapedData, LuminaError>)
        ensures
            step_view(r) == regex_apply(self@, data@),
    {
        let pats = &self.patterns;
        let mut d = data;
        let ghost d0 = d@;
        let n = pats.len();
        let mut i: usize = 0;
        proof {
            assert(pats.deep_view().skip(0) =~= pats.deep_view());
        }
        while i < n
            invariant
                d0 == data@,
                self@ == pats.deep_view(),
                i <= n,
                n == pats@.len(),
                pats.deep_view().len() == n,
                forall|j: int| 0 <= j < n ==> pats.deep_view()[j] == (pats@[j].0@, pats@[j].1@),
                regex_apply(pats.deep_view(), d0) == regex_apply(
                    pats.deep_view().skip(i as int),
                    d@,
                ),
            decreases n - i,
        {
            let ghost dv = pats.deep_view();
            let ghost dpre = d@;
            proof {
                assert(dv.skip(i as int)[0] == dv[i as int]);
                assert(dv.skip(i as int).skip(1) =~= dv.skip(i as int + 1));
            }
            match regex_find_all(pats[i].1.as_str(), d.html.as_str()) {
                Ok(vals) => {
                    d.extracted.insert(pats[i].0.clone(), JsonValue::Texts(vals));
                    proof {
                        assert(d@ =~= (RecordView {
                            url: dpre.url,
                            html: dpre.html,
                            metadata: dpre.metadata,
                            extracted: upsert(
                                dpre.extracted,
                                dv[i as int].0,
                                JsonValueView::Texts(re_matches(dv[i as int].1, dpre.html)),
                            ),
                        }));
                    }
                },
                Err(e) => {
                    let mut msg = String::from_str("Invalid regex: ");
                    msg.append(e.as_str());
                    return Err(LuminaError::ParseError(msg));
                },
            }
            i += 1;
        }
        proof {
            assert(pats.deep_view().skip(n as int) =~= Seq::<(Seq<char>, Seq<char>)>::empty());
        }
        Ok(d)
    }
}

} // verus!
