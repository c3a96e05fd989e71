//! Selector-based text extraction: each `(key, selector)` pair stores
//! the tidied text of every match under its key.

use vstd::prelude::*;
use vstd::string::StringExecFns;
use crate::types::{ScrapedData, RecordView};
use crate::error::{LuminaError, ErrorView};
use crate::json::{JsonValue, JsonValueView};
use crate::select::{sel_error, sel_texts, tidy, query_texts};
use crate::strmap::{upsert, upsert_all};
use crate::nodes::step_view;

verus! {

/// Extracts the text of selector matches into keyed string lists.
#[derive(Debug)]
pub struct ParseNode {
    selectors: Vec<(String, String)>,
}

impl View for ParseNode {
    type V = Seq<(Seq<char>, Seq<char>)>;

    closed spec fn view(&self) -> Seq<(Seq<char>, Seq<char>)> {
        self.selectors.deep_view()
    }
}

/// The effect of a `(key, selector)` list on the record: in order,
/// each valid selector stores the tidied text of its matches under its
/// key; the first invalid selector stops the stage with a parse error
/// wrapping the selector error's text.
pub open spec fn sel_list_apply(sels: Seq<(Seq<char>, Seq<char>)>, d: RecordView) -> Result<
    RecordView,
    ErrorView,
>
    decreases sels.len(),
{
    if sels.len() == 0 {
        Ok(d)
    } else {
        match sel_error(sels[0].1) {
            Some(e) => Err(ErrorView::Parse("Invalid selector: "@ + e)),
            None => {
                let vals = tidy(sel_texts(d.html, sels[0].1));
                let d2 = RecordView {
                    url: d.url,
                    html: d.html,
                    metadata: d.metadata,
                    extracted: upsert(d.extracted, sels[0].0, JsonValueView::Texts(vals)),
                };
                sel_list_apply(sels.skip(1), d2)
            },
        }
    }
}

/// The writes a `(key, selector)` list performs: one entry per pair,
/// holding the tidied match text for the record's raw content.
pub open spec fn sel_write_list(sels: Seq<(Seq<char>, Seq<char>)>, html: Seq<char>) -> Seq<
    (Seq<char>, JsonValueView),
> {
    Seq::new(
        sels.len(),
        |i: int| (sels[i].0, JsonValueView::Texts(tidy(sel_texts(html, sels[i].1)))),
    )
}

/// A successful selector list changes exactly the extraction map, by
/// its write list, and nothing else.
pub proof fn lemma_sel_list_writes(sels: Seq<(Seq<char>, Seq<char>)>, d: RecordView)
    requires
        sel_list_apply(sels, d) is Ok,
    ensures
        sel_list_apply(sels, d)->Ok_0.extracted == upsert_all(d.extracted, sel_write_list(
            sels,
            d.html,
        )),
        sel_list_apply(sels, d)->Ok_0.html == d.html,
        sel_list_apply(sels, d)->Ok_0.url == d.url,
        sel_list_apply(sels, d)->Ok_0.metadata == d.metadata,
    decreases sels.len(),
{
    let ws = sel_write_list(sels, d.html);
    if sels.len() == 0 {
    } else {
        let d2 = RecordView {
            url: d.url,
            html: d.html,
            metadata: d.metadata,
            extracted: upsert(
                d.extracted,
                sels[0].0,
                JsonValueView::Texts(tidy(sel_texts(d.html, sels[0].1))),
            ),
        };
        lemma_sel_list_writes(sels.skip(1), d2);
        assert(ws[0] == (sels[0].0, JsonValueView::Texts(tidy(sel_texts(d.html, sels[0].1)))));
        assert(ws.skip(1) =~= sel_write_list(sels.skip(1), d2.html));
    }
}

/// Runs a `(key, selector)` list against the record, stage by stage.
pub fn apply_selectors(sels: &Vec<(String, String)>, data: ScrapedData) -> (r: Result<
    ScrapedData,
    LuminaError,
>)
    ensures
        step_view(r) == sel_list_apply(sels.deep_view(), data@),
{
    let mut d = data;
    let ghost d0 = d@;
    let n = sels.len();
    let mut i: usize = 0;
    proof {
        assert(sels.deep_view().skip(0) =~= sels.deep_view());
    }
    while i < n
        invariant
            d0 == data@,
            i <= n,
            n == sels@.len(),
            sels.deep_view().len() == n,
            forall|j: int| 0 <= j < n ==> sels.deep_view()[j] == (sels@[j].0@, sels@[j].1@),
            sel_list_apply(sels.deep_view(), d0) == sel_list_apply(
                sels.deep_view().skip(i as int),
                d@,
            ),
        decreases n - i,
    {
        let ghost dv = sels.deep_view();
        let ghost dpre = d@;
        proof {
            assert(dv.skip(i as int)[0] == dv[i as int]);
            assert(dv.skip(i as int).skip(1) =~= dv.skip(i as int + 1));
        }
        match query_texts(d.html.as_str(), sels[i].1.as_str()) {
            Ok(vals) => {
                d.extracted.insert(sels[i].0.clone(), JsonValue::Texts(vals));
                proof {
                    assert(d@ =~= (RecordView {
                        url: dpre.url,
                        html: dpre.html,
                        metadata: dpre.metadata,
                        extracted: upsert(
                            dpre.extracted,
                            dv[i as int].0,
                            JsonValueView::Texts(tidy(sel_texts(dpre.html, dv[i as int].1))),
                        ),
                    }));
                }
            },
            Err(e) => {
                let mut msg = String::from_str("Invalid selector: ");
                msg.append(e.as_str());
                return Err(LuminaError::ParseError(msg));
            },
        }
        i += 1;
    }
    proof {
        assert(sels.deep_view().skip(n as int) =~= Seq::<(Seq<char>, Seq<char>)>::empty());
    }
    Ok(d)
}

impl ParseNode {
    /// A stage over these `(key, selector)` pairs.
    pub fn new(selectors: Vec<(String, String)>) -> (r: Self)
        ensures
            r@ == selectors.deep_view(),
    {
        ParseNode { selectors }
    }

    /// Runs every selector against the record's raw content.
    pub fn execute(&self, data: ScrapedData) -> (r: Result<ScrapedData, LuminaError>)
        ensures
            step_view(r) == sel_list_apply(self@, data@),
    {
        apply_selectors(&self.selectors, data)
    }
}

} // verus!
