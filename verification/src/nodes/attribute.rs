//! Selector-based attribute extraction: each `(key, selector,
//! attribute)` triple stores the attribute of every match under its key.

use vstd::prelude::*;
use vstd::string::StringExecFns;
use crate::types::{ScrapedData, RecordView};
use crate::error::{LuminaError, ErrorView};
use crate::json::{JsonValue, JsonValueView};
use crate::select::{sel_error, sel_attrs, query_attrs};
use crate::strmap::{upsert, upsert_all};
use crate::nodes::step_view;

verus! {

/// Extracts an attribute of selector matches into keyed string lists.
#[derive(Debug)]
pub struct AttributeNode {
    selectors: Vec<(String, String, String)>,
}

impl View for AttributeNode {
    type V = Seq<(Seq<char>, Seq<char>, Seq<char>)>;

    closed spec fn view(&self) -> Seq<(Seq<char>, Seq<char>, Seq<char>)> {
        self.selectors.deep_view()
    }
}

/// The effect of a `(key, selector, attribute)` list on the record: in
/// order, each valid selector stores the attribute of its matches that
/// carry it under its key; the first invalid selector stops the stage.
pub open spec fn attr_apply(sels: Seq<(Seq<char>, Seq<char>, Seq<char>)>, d: RecordView) -> Result<
    RecordView,
    ErrorView,
>
    decreases sels.len(),
{
    if sels.len() == 0 {
        Ok(d)
    } else {
        match sel_error(sels[0].1) {
            Some(e) => Err(ErrorView::Parse("Invalid selector: "@ + e)),
            None => {
                let vals = sel_attrs(d.html, sels[0].1, sels[0].2);
                let d2 = RecordView {
                    url: d.url,
                    html: d.html,
                    metadata: d.metadata,
                    extracted: upsert(d.extracted, sels[0].0, JsonValueView::Texts(vals)),
                };
                attr_apply(sels.skip(1), d2)
            },
        }
    }
}

/// The writes a `(key, selector, attribute)` list performs.
pub open spec fn attr_write_list(
    sels: Seq<(Seq<char>, Seq<char>, Seq<char>)>,
    html: Seq<char>,
) -> Seq<(Seq<char>, JsonValueView)> {
    Seq::new(
        sels.len(),
        |i: int| (sels[i].0, JsonValueView::Texts(sel_attrs(html, sels[i].1, sels[i].2))),
    )
}

/// A successful attribute list changes exactly the extraction map, by
/// its write list, and nothing else.
pub proof fn lemma_attr_writes(sels: Seq<(Seq<char>, Seq<char>, Seq<char>)>, d: RecordView)
    requires
        attr_apply(sels, d) is Ok,
    ensures
        attr_apply(sels, d)->Ok_0.extracted == upsert_all(d.extracted, attr_write_list(
            sels,
            d.html,
        )),
        attr_apply(sels, d)->Ok_0.html == d.html,
        attr_apply(sels, d)->Ok_0.url == d.url,
        attr_apply(sels, d)->Ok_0.metadata == d.metadata,
    decreases sels.len(),
{
    let ws = attr_write_list(sels, d.html);
    if sels.len() == 0 {
    } else {
        let d2 = RecordView {
            url: d.url,
            html: d.html,
            metadata: d.metadata,
            extracted: upsert(
                d.extracted,
                sels[0].0,
                JsonValueView::Texts(sel_attrs(d.html, sels[0].1, sels[0].2)),
            ),
        };
        lemma_attr_writes(sels.skip(1), d2);
        assert(ws[0] == (sels[0].0, JsonValueView::Texts(sel_attrs(d.html, sels[0].1, sels[0].2))));
        assert(ws.skip(1) =~= attr_write_list(sels.skip(1), d2.html));
    }
}

impl AttributeNode {
    /// A stage over these `(key, selector, attribute)` triples.
    pub fn new(selectors: Vec<(String, String, String)>) -> (r: Self)
        ensures
            r@ == selectors.deep_view(),
    {
        AttributeNode { selectors }
    }

    /// The stage extended by one more triple.
    pub fn with_attribute(self, key: String, selector: String, attr: String) -> (r: Self)
        ensures
            r@ == self@.push((key@, selector@, attr@)),
    {
        let mut selectors = self.selectors;
        selectors.push((key, selector, attr));
        proof {
            assert(selectors.deep_view() =~= self@.push((key@, selector@, attr@)));
        }
        AttributeNode { selectors }
    }

    /// Runs every triple against the record's raw content.
    pub fn execute(&self, data: ScrapedData) -> (r: Result<ScrapedData, LuminaError>)
        ensures
            step_view(r) == attr_apply(self@, data@),
    {
        let sels = &self.selectors;
        let mut d = data;
        let ghost d0 = d@;
        let n = sels.len();
        let mut i: usize = 0;
        proof {
            assert(sels.deep_view().skip(0) =~= sels.deep_view());
        }
        while i < n
            invariant
                d0 == data@,
                self@ == sels.deep_view(),
                i <= n,
                n == sels@.len(),
                sels.deep_view().len() == n,
                forall|j: int|
                    0 <= j < n ==> sels.deep_view()[j] == (sels@[j].0@, sels@[j].1@, sels@[j].2@),
                attr_apply(sels.deep_view(), d0) == attr_apply(
                    sels.deep_view().skip(i as int),
                    d@,
                ),
            decreases n - i,
        {
            let ghost dv = sels.deep_view();
            let ghost dpre = d@;
            proof {
                assert(dv.skip(i as int)[0] == dv[i as int]);
                assert(dv.skip(i as int).skip(1) =~= dv.skip(i as int + 1));
            }
            match query_attrs(d.html.as_str(), sels[i].1.as_str(), sels[i].2.as_str()) {
                Ok(vals) => {
                    d.extracted.insert(sels[i].0.clone(), JsonValue::Texts(vals));
                    proof {
                        assert(d@ =~= (RecordView {
                            url: dpre.url,
                            html: dpre.html,
                            metadata: dpre.metadata,
                            extracted: upsert(
                                dpre.extracted,
                                dv[i as int].0,
                                JsonValueView::Texts(
                                    sel_attrs(dpre.html, dv[i as int].1, dv[i as int].2),
                                ),
                            ),
                        }));
                    }
                },
                Err(e) => {
                    let mut msg = String::from_str("Invalid selector: ");
                    msg.append(e.as_str());
                    return Err(LuminaError::ParseError(msg));
                },
            }
            i += 1;
        }
        proof {
            assert(sels.deep_view().skip(n as int) =~= Seq::<
                (Seq<char>, Seq<char>, Seq<char>),
            >::empty());
        }
        Ok(d)
    }
}

} // verus!
