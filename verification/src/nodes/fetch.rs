//! The fetch stage: asks the driver for the target url's content and
//! folds the outcome into the record.

use vstd::prelude::*;
use vstd::string::StringExecFns;
use crate::types::{ScrapedData, RecordView};
use crate::error::{LuminaError, ErrorView};
use crate::effects::{FetchEvent, FetchEventView};
use crate::strmap::upsert;
use crate::strutil::{dec_str, dec_string};
use crate::nodes::step_view;

verus! {

/// Fetches the target url over HTTP.
#[derive(Debug)]
pub struct FetchNode {
    timeout_ms: u64,
}

impl View for FetchNode {
    type V = u64;

    closed spec fn view(&self) -> u64 {
        self.timeout_ms
    }
}

/// The effect of a fetch outcome on the record: a transport failure
/// stops the stage; a reply stores its decimal status code under the
/// `status_code` metadata key, then a success status (2xx) replaces the
/// raw content with the body, and any other status stops the stage.
pub open spec fn fetch_apply(d: RecordView, ev: FetchEventView) -> Result<RecordView, ErrorView> {
    match ev {
        FetchEventView::Transport(m) => Err(ErrorView::Http(m)),
        FetchEventView::Reply(rep) => {
            let code = dec_str(rep.status as nat);
            if 200 <= rep.status && rep.status < 300 {
                Ok(RecordView {
                    url: d.url,
                    html: rep.body,
                    metadata: upsert(d.metadata, "status_code"@, code),
                    extracted: d.extracted,
                })
            } else {
                Err(ErrorView::Http("HTTP status "@ + code))
            }
        },
    }
}

impl FetchNode {
    /// A stage with this request timeout, in milliseconds.
    pub fn new(timeout_ms: u64) -> (r: Self)
        ensures
            r@ == timeout_ms,
    {
        FetchNode { timeout_ms }
    }

    /// The request timeout handed to the driver.
    pub fn timeout_ms(&self) -> (r: u64)
        ensures
            r == self@,
    {
        self.timeout_ms
    }

    /// Folds a fetch outcome into the record.
    pub fn execute(&self, data: ScrapedData, ev: FetchEvent) -> (r: Result<
        ScrapedData,
        LuminaError,
    >)
        ensures
            step_view(r) == fetch_apply(data@, ev@),
    {
        let mut d = data;
        let ghost dpre = d@;
        match ev {
            FetchEvent::Transport(m) => Err(LuminaError::HttpError(m)),
            FetchEvent::Reply(rep) => {
                let code = dec_string(rep.status as u64);
                if 200 <= rep.status && rep.status < 300 {
                    d.metadata.insert(String::from_str("status_code"), code);
                    d.html = rep.body;
                    proof {
                        assert(d@ =~= (RecordView {
                            url: dpre.url,
                            html: rep.body@,
                            metadata: upsert(
                                dpre.metadata,
                                "status_code"@,
                                dec_str(rep.status as nat),
                            ),
                            extracted: dpre.extracted,
                        }));
                    }
                    Ok(d)
                } else {
                    let mut msg = String::from_str("HTTP status ");
                    msg.append(code.as_str());
                    Err(LuminaError::HttpError(msg))
                }
            },
        }
    }
}

} // verus!
