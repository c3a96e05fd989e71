//! The pipeline: an ordered, immutable list of stages, run as one unit
//! per target.
//!
//! A run threads a fresh record through every stage in order; the first
//! stage failure aborts the run and is wrapped with the failing stage's
//! name.  The spec function [`run_spec`] states the exact outcome for a
//! given sequence of outside outcomes; a run's result always equals
//! `run_spec` for the outcomes its driver handed back, and for a
//! pipeline of pure stages the outcome does not depend on them at all.

use vstd::prelude::*;
use vstd::string::StringExecFns;
use crate::types::{ScrapedData, RecordView, fresh_record};
use crate::error::{LuminaError, ErrorView, message_view};
use crate::effects::{EffectDriver, StageEvent, ChatEvent};
use crate::nodes::{Node, node_name, node_apply, is_pure, step_view};

verus! {

/// An ordered, immutable composition of stages.
#[derive(Debug)]
pub struct Graph {
    nodes: Vec<Node>,
}

impl View for Graph {
    type V = Seq<Node>;

    closed spec fn view(&self) -> Seq<Node> {
        self.nodes@
    }
}

/// A stage failure wrapped for the run's caller, naming the stage.
pub open spec fn wrap_node_err(name: Seq<char>, e: ErrorView) -> ErrorView {
    ErrorView::Graph("Node '"@ + name + "' failed: "@ + message_view(e))
}

/// The run outcome from a record onward: stages apply in order, each
/// consuming its outside outcome; the first failure aborts.
pub open spec fn run_from(nodes: Seq<Node>, d: RecordView, evs: Seq<StageEvent>) -> Result<
    RecordView,
    ErrorView,
>
    decreases nodes.len(),
{
    if nodes.len() == 0 {
        Ok(d)
    } else {
        match node_apply(nodes[0], d, evs[0]) {
            Ok(d2) => run_from(nodes.skip(1), d2, evs.skip(1)),
            Err(e) => Err(wrap_node_err(node_name(nodes[0]), e)),
        }
    }
}

/// The outcome of a whole run: a fresh record seeded with the url and
/// empty raw content, threaded through every stage.
pub open spec fn run_spec(nodes: Seq<Node>, url: Seq<char>, evs: Seq<StageEvent>) -> Result<
    RecordView,
    ErrorView,
> {
    run_from(nodes, fresh_record(url, Seq::empty()), evs)
}

/// Whether a step outcome is the spec-level run under some sequence of
/// outside outcomes: everything but the outcomes themselves — ordering,
/// failure naming, record construction — is pinned.
pub open spec fn some_run(nodes: Seq<Node>, url: Seq<char>, r: Result<
    ScrapedData,
    LuminaError,
>) -> bool {
    exists|evs: Seq<StageEvent>| step_view(r) == run_spec(nodes, url, evs)
}

/// Whether every stage's effect is a function of the record alone.
pub open spec fn all_pure(nodes: Seq<Node>) -> bool {
    forall|i: int| 0 <= i < nodes.len() ==> is_pure(#[trigger] nodes[i])
}

/// A run of pure stages does not depend on the outside outcomes.
pub proof fn lemma_pure_run_any_events(
    nodes: Seq<Node>,
    d: RecordView,
    evs1: Seq<StageEvent>,
    evs2: Seq<StageEvent>,
)
    requires
        all_pure(nodes),
    ensures
        run_from(nodes, d, evs1) == run_from(nodes, d, evs2),
    decreases nodes.len(),
{
    if nodes.len() > 0 {
        assert(is_pure(nodes[0]));
        assert(node_apply(nodes[0], d, evs1[0]) == node_apply(nodes[0], d, evs2[0]));
        match node_apply(nodes[0], d, evs1[0]) {
            Ok(d2) => {
                assert(all_pure(nodes.skip(1))) by {
                    assert(forall|i: int|
                        0 <= i < nodes.skip(1).len() ==> nodes.skip(1)[i] == nodes[i + 1]);
                }
                lemma_pure_run_any_events(nodes.skip(1), d2, evs1.skip(1), evs2.skip(1));
            },
            Err(_) => {},
        }
    }
}

/// A run splits at any stage boundary: the whole run is the run of the
/// first `i` stages followed, on success, by the run of the rest from
/// the record reached.
pub proof fn lemma_run_split(nodes: Seq<Node>, d: RecordView, evs: Seq<StageEvent>, i: int)
    requires
        0 <= i <= nodes.len(),
        i <= evs.len(),
    ensures
        run_from(nodes, d, evs) == (match run_from(nodes.take(i), d, evs.take(i)) {
            Ok(m) => run_from(nodes.skip(i), m, evs.skip(i)),
            Err(e) => Err(e),
        }),
    decreases i,
{
    if i == 0 {
        assert(nodes.take(0) =~= Seq::<Node>::empty());
        assert(nodes.skip(0) =~= nodes);
        assert(evs.skip(0) =~= evs);
    } else {
        assert(nodes.take(i)[0] == nodes[0]);
        assert(evs.take(i)[0] == evs[0]);
        match node_apply(nodes[0], d, evs[0]) {
            Ok(d2) => {
                lemma_run_split(nodes.skip(1), d2, evs.skip(1), i - 1);
                assert(nodes.skip(1).take(i - 1) =~= nodes.take(i).skip(1));
                assert(evs.skip(1).take(i - 1) =~= evs.take(i).skip(1));
                assert(nodes.skip(1).skip(i - 1) =~= nodes.skip(i));
                assert(evs.skip(1).skip(i - 1) =~= evs.skip(i));
            },
            Err(_) => {},
        }
    }
}

/// The writes a whole run performs on the extraction map, stage by
/// stage, in order; meaningful where the run succeeds.
pub open spec fn run_writes(nodes: Seq<Node>, d: RecordView, evs: Seq<StageEvent>) -> Seq<
    (Seq<char>, crate::json::JsonValueView),
>
    decreases nodes.len(),
{
    if nodes.len() == 0 {
        Seq::empty()
    } else {
        match node_apply(nodes[0], d, evs[0]) {
            Ok(d2) => crate::nodes::node_writes(nodes[0], d, evs[0]) + run_writes(
                nodes.skip(1),
                d2,
                evs.skip(1),
            ),
            Err(_) => Seq::empty(),
        }
    }
}

/// A run that succeeds builds its extraction map by applying every
/// stage's writes in order.
pub proof fn lemma_run_extracted(nodes: Seq<Node>, d: RecordView, evs: Seq<StageEvent>)
    requires
        run_from(nodes, d, evs) is Ok,
    ensures
        run_from(nodes, d, evs)->Ok_0.extracted == crate::strmap::upsert_all(
            d.extracted,
            run_writes(nodes, d, evs),
        ),
    decreases nodes.len(),
{
    if nodes.len() > 0 {
        match node_apply(nodes[0], d, evs[0]) {
            Ok(d2) => {
                crate::nodes::lemma_node_apply_writes(nodes[0], d, evs[0]);
                lemma_run_extracted(nodes.skip(1), d2, evs.skip(1));
                crate::strmap::lemma_upsert_all_concat(
                    d.extracted,
                    crate::nodes::node_writes(nodes[0], d, evs[0]),
                    run_writes(nodes.skip(1), d2, evs.skip(1)),
                );
            },
            Err(_) => {},
        }
    }
}

/// The last-write-wins law of a whole run: a successful run returns a
/// record whose extraction map holds exactly the keys some stage wrote,
/// each with the value of the last stage that wrote it.
pub proof fn lemma_run_last_write_wins(
    nodes: Seq<Node>,
    url: Seq<char>,
    evs: Seq<StageEvent>,
    k: Seq<char>,
)
    requires
        run_spec(nodes, url, evs) is Ok,
    ensures
        crate::strmap::lookup(run_spec(nodes, url, evs)->Ok_0.extracted, k)
            == crate::strmap::last_write(
            run_writes(nodes, fresh_record(url, Seq::empty()), evs),
            k,
        ),
{
    let d0 = fresh_record(url, Seq::empty());
    lemma_run_extracted(nodes, d0, evs);
    crate::strmap::lemma_upsert_all_lookup(d0.extracted, run_writes(nodes, d0, evs), k);
}

/// The first failing stage names the failure: where the stages before
/// `k` succeed and stage `k` fails, the whole run returns exactly that
/// stage's failure wrapped with its name, and no record.
pub proof fn lemma_first_failure_names_stage(
    nodes: Seq<Node>,
    url: Seq<char>,
    evs: Seq<StageEvent>,
    k: int,
)
    requires
        0 <= k < nodes.len(),
        k < evs.len(),
        run_from(nodes.take(k), fresh_record(url, Seq::empty()), evs.take(k)) matches Ok(mid),
        node_apply(nodes[k], run_from(
            nodes.take(k),
            fresh_record(url, Seq::empty()),
            evs.take(k),
        )->Ok_0, evs[k]) matches Err(e),
    ensures
        run_spec(nodes, url, evs) == Err::<RecordView, ErrorView>(
            wrap_node_err(node_name(nodes[k]), node_apply(nodes[k], run_from(
                nodes.take(k),
                fresh_record(url, Seq::empty()),
                evs.take(k),
            )->Ok_0, evs[k])->Err_0),
        ),
{
    lemma_run_split(nodes, fresh_record(url, Seq::empty()), evs, k);
    assert(nodes.skip(k)[0] == nodes[k]);
    assert(evs.skip(k)[0] == evs[k]);
    assert(nodes.skip(k).len() > 0);
}

impl Graph {
    /// An empty pipeline.
    pub fn new() -> (r: Self)
        ensures
            r@ == Seq::<Node>::empty(),
    {
        let r = Graph { nodes: Vec::new() };
        proof {
            assert(r@ =~= Seq::<Node>::empty());
        }
        r
    }

    /// The pipeline with one more stage at the end.
    pub fn add_node(self, node: Node) -> (r: Self)
        ensures
            r@ == self@.push(node),
    {
        let mut nodes = self.nodes;
        nodes.push(node);
        Graph { nodes }
    }

    /// Runs a fresh record for the url through every stage in order,
    /// asking the driver for each outside effect.  The result is the
    /// spec-level run under the outcomes the driver handed back; the
    /// first stage failure aborts the run, wrapped with the stage's
    /// name, and no partial record is returned.
    pub fn execute<D: EffectDriver>(&self, url: String, driver: &mut D) -> (r: Result<
        ScrapedData,
        LuminaError,
    >)
        ensures
            some_run(self@, url@, r),
            all_pure(self@) ==> step_view(r) == run_spec(self@, url@, Seq::empty()),
    {
        let mut data = ScrapedData::new(url, String::new());
        let ghost d0 = data@;
        let ghost mut evs: Seq<StageEvent> = Seq::empty();
        let n = self.nodes.len();
        let mut i: usize = 0;
        proof {
            assert(self@.take(0) =~= Seq::<Node>::empty());
            assert(evs.take(0) =~= evs);
        }
        while i < n
            invariant
                i <= n,
                n == self@.len(),
                d0 == fresh_record(url@, Seq::empty()),
                evs.len() == i,
                run_from(self@.take(i as int), d0, evs) == Ok::<RecordView, ErrorView>(data@),
            decreases n - i,
        {
            let node = &self.nodes[i];
            let ghost dpre = data@;
            let ghost mut sev: StageEvent = StageEvent::Ticked;
            let step: Result<ScrapedData, LuminaError> = match node {
                Node::Fetch(f) => {
                    let ev = driver.fetch(data.url.as_str(), f.timeout_ms());
                    proof {
                        sev = StageEvent::Fetched(ev@);
                    }
                    f.execute(data, ev)
                },
                Node::Parse(p) => p.execute(data),
                Node::Llm(l) => {
                    let ev: ChatEvent = if l.check_config().is_none() {
                        let prompt = l.chat_prompt(data.html.as_str());
                        match (&l.api_key, &l.api_url) {
                            (Some(key), Some(u)) => driver.chat(
                                l.provider.as_str(),
                                key.as_str(),
                                Some(u.as_str()),
                                l.model.as_str(),
                                prompt.as_str(),
                            ),
                            (Some(key), None) => driver.chat(
                                l.provider.as_str(),
                                key.as_str(),
                                None,
                                l.model.as_str(),
                                prompt.as_str(),
                            ),
                            _ => ChatEvent::Failure(String::new()),
                        }
                    } else {
                        ChatEvent::Failure(String::new())
                    };
                    proof {
                        sev = StageEvent::Chatted(ev@);
                    }
                    l.execute(data, ev)
                },
                Node::Delay(dl) => {
                    driver.pause(dl.delay_ms());
                    Ok(data)
                },
                Node::Json(j) => j.execute(data),
                Node::Regex(x) => x.execute(data),
                Node::Attribute(a) => a.execute(data),
                Node::LlmParse(l) => {
                    let ev: ChatEvent = if l.check_config().is_none() {
                        let prompt = l.chat_prompt(data.html.as_str());
                        match (&l.api_key, &l.api_url) {
                            (Some(key), Some(u)) => driver.chat(
                                l.provider.as_str(),
                                key.as_str(),
                                Some(u.as_str()),
                                l.model.as_str(),
                                prompt.as_str(),
                            ),
                            (Some(key), None) => driver.chat(
                                l.provider.as_str(),
                                key.as_str(),
                                None,
                                l.model.as_str(),
                                prompt.as_str(),
                            ),
                            _ => ChatEvent::Failure(String::new()),
                        }
                    } else {
                        ChatEvent::Failure(String::new())
                    };
                    proof {
                        sev = StageEvent::Chatted(ev@);
                    }
                    l.execute(data, ev)
                },
            };
            proof {
                assert(step_view(step) == node_apply(self@[i as int], dpre, sev));
            }
            match step {
                Ok(d2) => {
                    data = d2;
                    proof {
                        let evs0 = evs;
                        evs = evs.push(sev);
                        assert(evs.take(i as int) =~= evs0);
                        assert(evs.skip(i as int) =~= seq![sev]);
                        assert(self@.take(i as int + 1).take(i as int) =~= self@.take(i as int));
                        assert(self@.take(i as int + 1).skip(i as int) =~= seq![self@[i as int]]);
                        lemma_run_split(self@.take(i as int + 1), d0, evs, i as int);
                        assert(seq![self@[i as int]][0] == self@[i as int]);
                        assert(seq![sev][0] == sev);
                        assert(seq![self@[i as int]].skip(1) =~= Seq::<Node>::empty());
                        reveal_with_fuel(run_from, 3);
                        assert(run_from(seq![self@[i as int]], dpre, seq![sev]) == Ok::<
                            RecordView,
                            ErrorView,
                        >(data@));
                        assert(run_from(self@.take(i as int + 1), d0, evs) == Ok::<
                            RecordView,
                            ErrorView,
                        >(data@));
                    }
                },
                Err(e) => {
                    let mut msg = String::from_str("Node '");
                    msg.append(node.name());
                    msg.append("' failed: ");
                    msg.append(e.message().as_str());
                    proof {
                        let evs0 = evs;
                        evs = evs.push(sev);
                        assert(evs.take(i as int) =~= evs0);
                        assert(evs.skip(i as int) =~= seq![sev]);
                        lemma_run_split(self@, d0, evs, i as int);
                        assert(self@.skip(i as int)[0] == self@[i as int]);
                        assert(self@.skip(i as int).len() > 0);
                        assert(evs.skip(i as int)[0] == sev);
                        assert(run_from(self@.skip(i as int), dpre, evs.skip(i as int)) == Err::<
                            RecordView,
                            ErrorView,
                        >(wrap_node_err(node_name(self@[i as int]), e@)));
                        assert(run_spec(self@, url@, evs) == Err::<RecordView, ErrorView>(
                            wrap_node_err(node_name(self@[i as int]), e@),
                        ));
                    }
                    let out = Err(LuminaError::GraphError(msg));
                    proof {
                        assert(step_view(out) == run_spec(self@, url@, evs));
                        assert(some_run(self@, url@, out));
                        if all_pure(self@) {
                            lemma_pure_run_any_events(
                                self@,
                                fresh_record(url@, Seq::empty()),
                                evs,
                                Seq::empty(),
                            );
                        }
                    }
                    return out;
                },
            }
            i += 1;
        }
        proof {
            assert(self@.take(n as int) =~= self@);
            assert(run_spec(self@, url@, evs) == Ok::<RecordView, ErrorView>(data@));
            assert(some_run(self@, url@, Ok(data)));
            if all_pure(self@) {
                lemma_pure_run_any_events(self@, fresh_record(url@, Seq::empty()), evs, Seq::empty());
            }
        }
        Ok(data)
    }

    /// Runs every url one at a time; the result sequence matches the
    /// input order, and each entry is the independent run of its url.
    pub fn execute_batch<D: EffectDriver>(&self, urls: Vec<String>, driver: &mut D) -> (r: Vec<
        Result<ScrapedData, LuminaError>,
    >)
        ensures
            r@.len() == urls@.len(),
            forall|i: int| 0 <= i < r@.len() ==> some_run(self@, urls@[i]@, #[trigger] r@[i]),
            all_pure(self@) ==> forall|i: int|
                0 <= i < r@.len() ==> step_view(#[trigger] r@[i]) == run_spec(
                    self@,
                    urls@[i]@,
                    Seq::empty(),
                ),
    {
        let mut results: Vec<Result<ScrapedData, LuminaError>> = Vec::new();
        let n = urls.len();
        let mut i: usize = 0;
        while i < n
            invariant
                i <= n,
                n == urls@.len(),
                results@.len() == i,
                forall|j: int|
                    0 <= j < i ==> some_run(self@, urls@[j]@, #[trigger] results@[j]),
                all_pure(self@) ==> forall|j: int|
                    0 <= j < i ==> step_view(#[trigger] results@[j]) == run_spec(
                        self@,
                        urls@[j]@,
                        Seq::empty(),
                    ),
            decreases n - i,
        {
            let target = urls[i].clone();
            let ghost tview = target@;
            let ghost pre = results@;
            let one = self.execute(target, driver);
            results.push(one);
            proof {
                assert(tview == urls@[i as int]@);
                assert(results@[i as int] == one);
                assert(forall|j: int| 0 <= j < i ==> #[trigger] results@[j] == pre[j]);
                assert(some_run(self@, urls@[i as int]@, results@[i as int]));
            }
            i += 1;
        }
        results
    }

    /// Runs every url as an independent run and joins the outcomes in
    /// input order; a failure of one url has no effect on any other
    /// url's entry.  Scheduling the independent runs concurrently is
    /// the embedding runtime's affair: the contract of each entry is
    /// the same as one `execute` of its url.
    pub fn execute_parallel<D: EffectDriver>(&self, urls: Vec<String>, driver: &mut D) -> (r: Vec<
        Result<ScrapedData, LuminaError>,
    >)
        ensures
            r@.len() == urls@.len(),
            forall|i: int| 0 <= i < r@.len() ==> some_run(self@, urls@[i]@, #[trigger] r@[i]),
            all_pure(self@) ==> forall|i: int|
                0 <= i < r@.len() ==> step_view(#[trigger] r@[i]) == run_spec(
                    self@,
                    urls@[i]@,
                    Seq::empty(),
                ),
    {
        self.execute_batch(urls, driver)
    }
}

} // verus!
