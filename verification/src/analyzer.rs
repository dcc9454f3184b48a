//! The query poller: it validates that the log source exists, submits one
//! analytical query over the collected logs, polls the query's status at a
//! fixed one-second cadence until the engine reports completion, and reduces
//! the raw result rows into per-bucket statistics.
//!
//! Like the iteration driver, it is an event-driven state machine whose
//! transition function [`LambdaAnalyzer::next_spec`] is verified; the
//! unverified edge performs each returned action against the log-query
//! service and feeds the response back.

use vstd::prelude::*;
use vstd::string::{StrSliceExecFns, StringExecFns};
use crate::error::{RunError, RunErrorView};
use crate::stats::{reduce, spec_reduce, FieldView, ResultField, Stats};

verus! {

/// The fixed analytical query: filter log entries to those carrying the
/// cold-start-duration marker, then compute count, min, max, standard
/// deviation and the 25th/75th/99th/99.5th/99.9th percentiles of the
/// duration, grouped by the memory size derived from the raw byte field.
pub const QUERY_TEMPLATE: &'static str = "
    filter @message like /(?i)(Init Duration)/
    | fields @memorySize / 1000000 as memorySize
    | stats count() as count,
    min(@initDuration ) as min,
    max(@initDuration ) as max,
    stddev(@initDuration ) as stddev,
    pct(@initDuration, 25) as p50,
    pct(@initDuration, 75) as p75,
    pct(@initDuration, 99) as p99,
    pct(@initDuration, 99.5) as p995,
    pct(@initDuration, 99.9) as p999
    by memorySize";

/// The query text issued: the fixed template, preceded by a log-stream
/// filter clause when one is configured.
pub open spec fn spec_query_string(filter: Option<Seq<char>>) -> Seq<char> {
    match filter {
        Some(f) => "filter @logStream like "@ + f + " |"@ + QUERY_TEMPLATE@,
        None => QUERY_TEMPLATE@,
    }
}

/// Index of the last `:` in `s`, or `-1` if there is none.
pub open spec fn last_colon(s: Seq<char>) -> int
    decreases s.len(),
{
    if s.len() == 0 {
        -1
    } else if s.last() == ':' {
        s.len() - 1
    } else {
        last_colon(s.drop_last())
    }
}

/// `last_colon` is characterized by: a colon (or the start) at it, and no
/// colon after it.
proof fn lemma_last_colon_charac(s: Seq<char>, k: int)
    requires
        -1 <= k < s.len() || (s.len() == 0 && k == -1),
        k == -1 || s[k] == ':',
        forall|j: int| k < j < s.len() ==> s[j] != ':',
    ensures
        last_colon(s) == k,
    decreases s.len(),
{
    if s.len() == 0 {
    } else if s.last() == ':' {
        assert(k == s.len() - 1);
    } else {
        assert(k < s.len() - 1);
        lemma_last_colon_charac(s.drop_last(), k);
    }
}

/// The default log group name of a function: the final colon-delimited
/// segment of its identifier, under the fixed namespace path.
pub open spec fn spec_derived_log_group_name(function: Seq<char>) -> Seq<char> {
    "/aws/lambda/"@ + function.skip(last_colon(function) + 1)
}

/// Derive the log group name from a function name or fully-qualified
/// identifier; see [`spec_derived_log_group_name`].
pub fn derive_log_group_name(function: &str) -> (r: String)
    ensures
        r@ == spec_derived_log_group_name(function@),
{
    let n = function.unicode_len();
    let mut i: usize = n;
    while i > 0 && function.get_char(i - 1) != ':'
        invariant
            0 <= i <= n,
            n == function@.len(),
            forall|j: int| i <= j < n ==> function@[j] != ':',
        decreases i,
    {
        i = i - 1;
    }
    proof {
        lemma_last_colon_charac(function@, i as int - 1);
    }
    let seg = function.substring_char(i, n);
    proof {
        assert(seg@ =~= function@.skip(i as int));
    }
    String::from_str("/aws/lambda/").concat(seg)
}

/// The log group to analyze: the explicitly configured name when there is
/// one, else the name derived from the function identifier.
pub open spec fn spec_log_group_name(explicit: Option<Seq<char>>, function: Seq<char>) -> Seq<
    char,
> {
    match explicit {
        Some(n) => n,
        None => spec_derived_log_group_name(function),
    }
}

/// Resolve the log group name; see [`spec_log_group_name`].
pub fn resolve_log_group_name(explicit: Option<String>, function: &str) -> (r: String)
    ensures
        r@ == spec_log_group_name(
            match explicit {
                Some(n) => Some(n@),
                None => None,
            },
            function@,
        ),
{
    match explicit {
        Some(n) => n,
        None => derive_log_group_name(function),
    }
}

/// The status the query engine reports for a submitted query, collapsed to
/// what the poller reads: still running, complete, or any other value
/// (failed, cancelled, timed out) — which, like running, merely causes
/// another poll.
#[derive(Clone, Copy, Debug, PartialEq, Eq, Structural)]
pub enum QueryStatus {
    Running,
    Complete,
    Other,
}

/// Where the poller stands between two events.
#[derive(Clone, Copy, Debug, PartialEq, Eq, Structural)]
pub enum PollerPhase {
    /// Created, nothing asked of the caller yet.
    Start,
    /// Waiting to hear whether the log group exists.
    AwaitLogGroup,
    /// Query submitted, waiting for its handle.
    AwaitQueryId,
    /// Waiting for a status/results fetch.
    AwaitResults,
    /// Not complete: waiting for the fixed one-second delay to pass.
    AwaitSleep,
    /// Results reduced, statistics delivered.
    Finished,
    /// The run failed fatally; no further event is accepted.
    Aborted,
}

/// What the caller observed while performing the last action.
pub enum PollerEvent {
    /// Whether the log group exists.
    LogGroup(bool),
    /// The handle assigned to the submitted query.
    QueryStarted(String),
    /// One status/results fetch: the reported status, if any, and the
    /// result rows, each a group of named field/value pairs.
    Results(Option<QueryStatus>, Vec<Vec<ResultField>>),
    /// The one-second delay has passed.
    Slept,
}

/// The mathematical content of a [`PollerEvent`].
pub ghost enum PollerEventView {
    LogGroup(bool),
    QueryStarted(Seq<char>),
    Results(Option<QueryStatus>, Seq<Seq<FieldView>>),
    Slept,
}

impl View for PollerEvent {
    type V = PollerEventView;

    open spec fn view(&self) -> PollerEventView {
        match self {
            PollerEvent::LogGroup(e) => PollerEventView::LogGroup(*e),
            PollerEvent::QueryStarted(id) => PollerEventView::QueryStarted(id@),
            PollerEvent::Results(st, rows) => PollerEventView::Results(*st, rows.deep_view()),
            PollerEvent::Slept => PollerEventView::Slept,
        }
    }
}

/// Everything the caller needs to submit the analytical query. The query
/// runs over `[start_time, now)`; the upper bound is the moment of
/// submission, supplied by the caller.
pub struct QueryRequest {
    pub query_string: String,
    pub log_group_name: String,
    pub start_time: i64,
}

/// The mathematical content of a [`QueryRequest`].
pub ghost struct QueryRequestView {
    pub query_string: Seq<char>,
    pub log_group_name: Seq<char>,
    pub start_time: int,
}

impl View for QueryRequest {
    type V = QueryRequestView;

    open spec fn view(&self) -> QueryRequestView {
        QueryRequestView {
            query_string: self.query_string@,
            log_group_name: self.log_group_name@,
            start_time: self.start_time as int,
        }
    }
}

/// What the caller must do next.
pub enum PollerAction {
    /// Ask whether this log group exists and answer with `LogGroup`.
    DescribeLogGroup(String),
    /// Submit the query and answer with `QueryStarted`.
    StartQuery(QueryRequest),
    /// Fetch status and results of the query under this handle and answer
    /// with `Results`.
    GetResults(String),
    /// Wait one second and answer with `Slept`.
    Sleep,
    /// The reduced statistics, in result-row order; the run is complete.
    Done(Vec<Stats>),
    /// The run failed fatally; no further event is accepted.
    Abort(RunError),
}

/// The mathematical content of a [`PollerAction`].
pub ghost enum PollerActionView {
    DescribeLogGroup(Seq<char>),
    StartQuery(QueryRequestView),
    GetResults(Seq<char>),
    Sleep,
    Done(Seq<Stats>),
    Abort(RunErrorView),
}

impl View for PollerAction {
    type V = PollerActionView;

    open spec fn view(&self) -> PollerActionView {
        match self {
            PollerAction::DescribeLogGroup(n) => PollerActionView::DescribeLogGroup(n@),
            PollerAction::StartQuery(q) => PollerActionView::StartQuery(q@),
            PollerAction::GetResults(id) => PollerActionView::GetResults(id@),
            PollerAction::Sleep => PollerActionView::Sleep,
            PollerAction::Done(v) => PollerActionView::Done(v@),
            PollerAction::Abort(e) => PollerActionView::Abort(e@),
        }
    }
}

/// The poller's state: the log group under analysis, the query text, the
/// window's lower bound, and the handle of the in-flight query once one
/// was submitted.
pub struct LambdaAnalyzer {
    log_group_name: String,
    query_string: String,
    start_time: i64,
    query_id: Option<String>,
    phase: PollerPhase,
}

/// The mathematical content of a [`LambdaAnalyzer`].
pub ghost struct AnalyzerView {
    pub log_group_name: Seq<char>,
    pub query_string: Seq<char>,
    pub start_time: int,
    pub query_id: Option<Seq<char>>,
    pub phase: PollerPhase,
}

impl View for LambdaAnalyzer {
    type V = AnalyzerView;

    closed spec fn view(&self) -> AnalyzerView {
        AnalyzerView {
            log_group_name: self.log_group_name@,
            query_string: self.query_string@,
            start_time: self.start_time as int,
            query_id: match self.query_id {
                Some(ref id) => Some(id@),
                None => None,
            },
            phase: self.phase,
        }
    }
}

impl LambdaAnalyzer {
    /// A fresh poller over `log_group_name` from `start_time` on, with the
    /// optional log-stream filter folded into the query text.
    pub fn new(log_group_name: String, log_stream_filter: Option<String>, start_time: i64) -> (r:
        LambdaAnalyzer)
        ensures
            r@ == (AnalyzerView {
                log_group_name: log_group_name@,
                query_string: spec_query_string(
                    match log_stream_filter {
                        Some(f) => Some(f@),
                        None => None,
                    },
                ),
                start_time: start_time as int,
                query_id: None,
                phase: PollerPhase::Start,
            }),
    {
        let query_string = match log_stream_filter {
            Some(f) => String::from_str("filter @logStream like ").concat(f.as_str()).concat(
                " |",
            ).concat(QUERY_TEMPLATE),
            None => String::from_str(QUERY_TEMPLATE),
        };
        LambdaAnalyzer {
            log_group_name,
            query_string,
            start_time,
            query_id: None,
            phase: PollerPhase::Start,
        }
    }

    /// Begin the analysis: the first thing asked of the caller is the
    /// existence check of the log group.
    pub fn start(&mut self) -> (a: PollerAction)
        requires
            old(self)@.phase == PollerPhase::Start,
        ensures
            final(self)@ == (AnalyzerView { phase: PollerPhase::AwaitLogGroup, ..old(self)@ }),
            a@ == PollerActionView::DescribeLogGroup(old(self)@.log_group_name),
    {
        self.phase = PollerPhase::AwaitLogGroup;
        PollerAction::DescribeLogGroup(self.log_group_name.clone())
    }

    /// The transition function of the poller: from a state and an event to
    /// the next state and the action asked of the caller, or `None` when
    /// the event does not answer the pending action.
    ///
    /// An absent log group aborts before any query is submitted. Once the
    /// query is in flight, a fetch whose status is anything but complete —
    /// absent, still running, or any other value — causes a sleep and
    /// another fetch, without bound. A complete fetch is reduced; its
    /// statistics end the run, or the first malformed metric value aborts
    /// it.
    pub open spec fn next_spec(pre: AnalyzerView, e: PollerEventView) -> Option<
        (AnalyzerView, PollerActionView),
    > {
        match (pre.phase, e) {
            (PollerPhase::AwaitLogGroup, PollerEventView::LogGroup(exists)) => {
                if exists {
                    Some(
                        (
                            AnalyzerView { phase: PollerPhase::AwaitQueryId, ..pre },
                            PollerActionView::StartQuery(
                                QueryRequestView {
                                    query_string: pre.query_string,
                                    log_group_name: pre.log_group_name,
                                    start_time: pre.start_time,
                                },
                            ),
                        ),
                    )
                } else {
                    Some(
                        (
                            AnalyzerView { phase: PollerPhase::Aborted, ..pre },
                            PollerActionView::Abort(
                                RunErrorView::LogGroupMissing(pre.log_group_name),
                            ),
                        ),
                    )
                }
            },
            (PollerPhase::AwaitQueryId, PollerEventView::QueryStarted(id)) => Some(
                (
                    AnalyzerView { query_id: Some(id), phase: PollerPhase::AwaitResults, ..pre },
                    PollerActionView::GetResults(id),
                ),
            ),
            (PollerPhase::AwaitResults, PollerEventView::Results(st, rows)) => {
                if st == Some(QueryStatus::Complete) {
                    match spec_reduce(rows) {
                        Ok(sts) => Some(
                            (
                                AnalyzerView { phase: PollerPhase::Finished, ..pre },
                                PollerActionView::Done(sts),
                            ),
                        ),
                        Err(f) => Some(
                            (
                                AnalyzerView { phase: PollerPhase::Aborted, ..pre },
                                PollerActionView::Abort(RunErrorView::MetricParse(f)),
                            ),
                        ),
                    }
                } else {
                    Some(
                        (
                            AnalyzerView { phase: PollerPhase::AwaitSleep, ..pre },
                            PollerActionView::Sleep,
                        ),
                    )
                }
            },
            (PollerPhase::AwaitSleep, PollerEventView::Slept) => {
                match pre.query_id {
                    Some(id) => Some(
                        (
                            AnalyzerView { phase: PollerPhase::AwaitResults, ..pre },
                            PollerActionView::GetResults(id),
                        ),
                    ),
                    None => None,
                }
            },
            _ => None,
        }
    }

    /// Feed one observed event into the poller; see [`next_spec`].
    pub fn step(&mut self, e: PollerEvent) -> (a: PollerAction)
        requires
            Self::next_spec(old(self)@, e@) is Some,
        ensures
            Self::next_spec(old(self)@, e@) == Some((final(self)@, a@)),
    {
        match e {
            PollerEvent::LogGroup(exists) => {
                if exists {
                    self.phase = PollerPhase::AwaitQueryId;
                    PollerAction::StartQuery(
                        QueryRequest {
                            query_string: self.query_string.clone(),
                            log_group_name: self.log_group_name.clone(),
                            start_time: self.start_time,
                        },
                    )
                } else {
                    self.phase = PollerPhase::Aborted;
                    PollerAction::Abort(RunError::LogGroupMissing(self.log_group_name.clone()))
                }
            },
            PollerEvent::QueryStarted(id) => {
                let idc = id.clone();
                self.query_id = Some(id);
                self.phase = PollerPhase::AwaitResults;
                PollerAction::GetResults(idc)
            },
            PollerEvent::Results(st, rows) => {
                if matches!(st, Some(QueryStatus::Complete)) {
                    match reduce(&rows) {
                        Ok(v) => {
                            self.phase = PollerPhase::Finished;
                            PollerAction::Done(v)
                        },
                        Err(pe) => {
                            self.phase = PollerPhase::Aborted;
                            PollerAction::Abort(RunError::MetricParse(pe))
                        },
                    }
                } else {
                    self.phase = PollerPhase::AwaitSleep;
                    PollerAction::Sleep
                }
            },
            PollerEvent::Slept => {
                let id = match &self.query_id {
                    Some(id) => id.clone(),
                    None => {
                        proof {
                            assert(false);
                        }
                        vstd::pervasive::unreached()
                    },
                };
                self.phase = PollerPhase::AwaitResults;
                PollerAction::GetResults(id)
            },
        }
    }

    /// The log group under analysis.
    pub fn log_group_name(&self) -> (r: &String)
        ensures
            r@ == self@.log_group_name,
    {
        &self.log_group_name
    }

    /// The full query text that will be submitted.
    pub fn query_string(&self) -> (r: &String)
        ensures
            r@ == self@.query_string,
    {
        &self.query_string
    }

    /// The lower bound of the query's time window.
    pub fn start_time(&self) -> (r: i64)
        ensures
            r as int == self@.start_time,
    {
        self.start_time
    }

    /// The phase the poller currently stands in.
    pub fn phase(&self) -> (r: PollerPhase)
        ensures
            r == self@.phase,
    {
        self.phase
    }
}

/// A poller run: `states[0]` before any event; event `i` takes `states[i]`
/// to `states[i + 1]` while emitting `actions[i]`.
pub open spec fn valid_poll_run(
    states: Seq<AnalyzerView>,
    events: Seq<PollerEventView>,
    actions: Seq<PollerActionView>,
) -> bool {
    &&& states.len() == events.len() + 1
    &&& actions.len() == events.len()
    &&& forall|i: int|
        0 <= i < events.len() ==> #[trigger] LambdaAnalyzer::next_spec(states[i], events[i])
            == Some((states[i + 1], actions[i]))
}

/// A run that reaches the aborted phase at step `i` ends there: no event
/// is accepted afterwards.
pub proof fn lemma_poll_abort_ends_run(
    states: Seq<AnalyzerView>,
    events: Seq<PollerEventView>,
    actions: Seq<PollerActionView>,
    i: int,
)
    requires
        valid_poll_run(states, events, actions),
        0 <= i < states.len(),
        states[i].phase == PollerPhase::Aborted,
    ensures
        i == events.len(),
{
    if i < events.len() {
        assert(LambdaAnalyzer::next_spec(states[i], events[i]) == Some(
            (states[i + 1], actions[i]),
        ));
    }
}

/// MISSING LOG GROUP LAW. A poller run whose existence check answers that
/// the log group is absent aborts at once with the precondition-failure
/// error naming that log group, before any query is submitted: the run's
/// one action is that abort, and no action of the run starts a query.
pub proof fn lemma_missing_log_group_aborts(
    states: Seq<AnalyzerView>,
    events: Seq<PollerEventView>,
    actions: Seq<PollerActionView>,
)
    requires
        valid_poll_run(states, events, actions),
        events.len() >= 1,
        states[0].phase == PollerPhase::AwaitLogGroup,
        events[0] == PollerEventView::LogGroup(false),
    ensures
        events.len() == 1,
        actions.len() == 1,
        actions[0] == PollerActionView::Abort(
            RunErrorView::LogGroupMissing(states[0].log_group_name),
        ),
        forall|i: int| 0 <= i < actions.len() ==> !(#[trigger] actions[i] is StartQuery),
{
    assert(LambdaAnalyzer::next_spec(states[0], events[0]) == Some((states[1], actions[0])));
    assert(states[1].phase == PollerPhase::Aborted);
    lemma_poll_abort_ends_run(states, events, actions, 1);
}

} // verus!
