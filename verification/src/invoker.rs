//! The iteration driver: for a configured number of iterations it forces a
//! fresh execution environment by overwriting one environment key with a
//! fresh token, waits until the platform reports the function ready, and
//! invokes the function with the fixed payload.
//!
//! The driver is an event-driven state machine. Every transition is the
//! deterministic function [`LambdaInvoker::next_spec`] from the current
//! state and an observed event to the next state and the action the caller
//! must perform; the unverified edge performs the action against the
//! platform and feeds the response back as the next event.

use vstd::prelude::*;
use crate::env::EnvMap;
use crate::error::{RunError, RunErrorView};
use crate::readiness::{classify, spec_classify, ConfigView, FunctionConfig, Readiness};

verus! {

/// The environment key overwritten each iteration; a fresh value under this
/// key is the sole mechanism forcing a new execution environment.
pub open spec fn refresh_key() -> Seq<char> {
    "cold_start_uuid"@
}

/// Where the driver stands between two events.
#[derive(Clone, Copy, Debug, PartialEq, Eq, Structural)]
pub enum DriverPhase {
    /// Created, nothing asked of the caller yet.
    Start,
    /// Waiting for the one initial configuration fetch that seeds the
    /// environment mapping.
    AwaitInitialConfig,
    /// Waiting for a fresh token to force the next cold start.
    NeedToken,
    /// Configuration update submitted, waiting for its acknowledgement.
    AwaitUpdate,
    /// Waiting for a configuration fetch of the readiness poll.
    AwaitReadyConfig,
    /// Not ready: waiting for the fixed one-second delay to pass.
    AwaitSleep,
    /// Ready: waiting for the invocation's result.
    AwaitInvoke,
    /// All iterations done.
    Finished,
    /// A fatal platform state was observed; no further event is accepted.
    Aborted,
}

/// What the caller observed while performing the last action.
pub enum DriverEvent {
    /// A configuration fetch returned this snapshot.
    Config(FunctionConfig),
    /// A fresh unique token was drawn.
    Token(String),
    /// The configuration update was accepted (which does not mean it has
    /// taken effect — only the readiness poll establishes that).
    Updated,
    /// The one-second delay has passed.
    Slept,
    /// The invocation returned, with the platform-reported function error
    /// if any; such an error is deliberately not fatal.
    Invoked(Option<String>),
}

/// The mathematical content of a [`DriverEvent`].
pub ghost enum DriverEventView {
    Config(ConfigView),
    Token(Seq<char>),
    Updated,
    Slept,
    Invoked(Option<Seq<char>>),
}

impl View for DriverEvent {
    type V = DriverEventView;

    open spec fn view(&self) -> DriverEventView {
        match self {
            DriverEvent::Config(c) => DriverEventView::Config(c@),
            DriverEvent::Token(t) => DriverEventView::Token(t@),
            DriverEvent::Updated => DriverEventView::Updated,
            DriverEvent::Slept => DriverEventView::Slept,
            DriverEvent::Invoked(e) => DriverEventView::Invoked(
                match e {
                    Some(s) => Some(s@),
                    None => None,
                },
            ),
        }
    }
}

/// What the caller must do next.
pub enum DriverAction {
    /// Fetch the target's configuration and answer with `Config`.
    FetchConfig,
    /// Draw a fresh unique token and answer with `Token`; or call
    /// [`LambdaInvoker::provide_token`], which draws one itself.
    ProvideToken,
    /// Submit this environment mapping as the target's new configuration
    /// and answer with `Updated`.
    UpdateConfig(EnvMap),
    /// Invoke the target with the fixed payload and answer with `Invoked`.
    Invoke,
    /// Wait one second and answer with `Slept`.
    Sleep,
    /// The run is complete; no further event is accepted.
    Done,
    /// The run failed fatally; no further event is accepted.
    Abort(RunError),
}

/// The mathematical content of a [`DriverAction`].
pub ghost enum DriverActionView {
    FetchConfig,
    ProvideToken,
    UpdateConfig(Map<Seq<char>, Seq<char>>),
    Invoke,
    Sleep,
    Done,
    Abort(RunErrorView),
}

impl View for DriverAction {
    type V = DriverActionView;

    open spec fn view(&self) -> DriverActionView {
        match self {
            DriverAction::FetchConfig => DriverActionView::FetchConfig,
            DriverAction::ProvideToken => DriverActionView::ProvideToken,
            DriverAction::UpdateConfig(env) => DriverActionView::UpdateConfig(env@),
            DriverAction::Invoke => DriverActionView::Invoke,
            DriverAction::Sleep => DriverActionView::Sleep,
            DriverAction::Done => DriverActionView::Done,
            DriverAction::Abort(e) => DriverActionView::Abort(e@),
        }
    }
}

/// The driver's state: the invocation target it owns for the run's
/// duration — name, fixed payload, environment mapping — and the progress
/// of the iteration loop.
pub struct LambdaInvoker {
    function_name: String,
    payload: String,
    iterations: u16,
    completed: u16,
    env: EnvMap,
    phase: DriverPhase,
}

/// The mathematical content of a [`LambdaInvoker`].
pub ghost struct InvokerView {
    pub function_name: Seq<char>,
    pub payload: Seq<char>,
    pub iterations: nat,
    pub completed: nat,
    pub env: Map<Seq<char>, Seq<char>>,
    pub phase: DriverPhase,
}

impl View for LambdaInvoker {
    type V = InvokerView;

    closed spec fn view(&self) -> InvokerView {
        InvokerView {
            function_name: self.function_name@,
            payload: self.payload@,
            iterations: self.iterations as nat,
            completed: self.completed as nat,
            env: self.env@,
            phase: self.phase,
        }
    }
}

/// Whether the driver stands inside an iteration: a mutation has been
/// emitted whose invocation has not completed yet.
pub open spec fn mid_iteration(phase: DriverPhase) -> bool {
    match phase {
        DriverPhase::NeedToken => true,
        DriverPhase::AwaitUpdate => true,
        DriverPhase::AwaitReadyConfig => true,
        DriverPhase::AwaitSleep => true,
        DriverPhase::AwaitInvoke => true,
        _ => false,
    }
}

impl LambdaInvoker {
    /// Completed iterations never exceed the configured count; inside an
    /// iteration at least one more is still owed; before the first
    /// mutation none has completed.
    #[verifier::type_invariant]
    spec fn wf(&self) -> bool {
        self.completed <= self.iterations && (mid_iteration(self.phase) ==> self.completed
            < self.iterations) && ((self.phase == DriverPhase::Start || self.phase
            == DriverPhase::AwaitInitialConfig) ==> self.completed == 0)
    }

    /// A fresh driver for `iterations` cold starts of `function_name` with
    /// the given fixed payload.
    pub fn new(function_name: String, payload: String, iterations: u16) -> (r: LambdaInvoker)
        ensures
            r@ == (InvokerView {
                function_name: function_name@,
                payload: payload@,
                iterations: iterations as nat,
                completed: 0,
                env: Map::<Seq<char>, Seq<char>>::empty(),
                phase: DriverPhase::Start,
            }),
    {
        LambdaInvoker {
            function_name,
            payload,
            iterations,
            completed: 0,
            env: EnvMap::new(),
            phase: DriverPhase::Start,
        }
    }

    /// Begin the run: the first thing asked of the caller is the initial
    /// configuration fetch.
    pub fn start(&mut self) -> (a: DriverAction)
        requires
            old(self)@.phase == DriverPhase::Start,
        ensures
            final(self)@ == (InvokerView { phase: DriverPhase::AwaitInitialConfig, ..old(self)@ }),
            a@ == DriverActionView::FetchConfig,
    {
        proof {
            use_type_invariant(&*self);
        }
        self.phase = DriverPhase::AwaitInitialConfig;
        DriverAction::FetchConfig
    }

    /// The transition function of the driver: from a state and an event to
    /// the next state and the action asked of the caller, or `None` when
    /// the event does not answer the pending action.
    ///
    /// The run is strictly sequential: the initial fetch seeds the
    /// environment; then, per iteration, one token is drawn and written
    /// under [`refresh_key`], the updated mapping is submitted, the
    /// readiness poll repeats fetch–classify–sleep until the target is
    /// ready (an unrecognized update outcome aborts fatally), and one
    /// invocation completes the iteration, whatever function error it
    /// reports.
    pub open spec fn next_spec(pre: InvokerView, e: DriverEventView) -> Option<
        (InvokerView, DriverActionView),
    > {
        match (pre.phase, e) {
            (DriverPhase::AwaitInitialConfig, DriverEventView::Config(c)) => {
                if pre.iterations == 0 {
                    Some(
                        (
                            InvokerView { env: c.env, phase: DriverPhase::Finished, ..pre },
                            DriverActionView::Done,
                        ),
                    )
                } else {
                    Some(
                        (
                            InvokerView { env: c.env, phase: DriverPhase::NeedToken, ..pre },
                            DriverActionView::ProvideToken,
                        ),
                    )
                }
            },
            (DriverPhase::NeedToken, DriverEventView::Token(t)) => {
                let env2 = pre.env.insert(refresh_key(), t);
                Some(
                    (
                        InvokerView { env: env2, phase: DriverPhase::AwaitUpdate, ..pre },
                        DriverActionView::UpdateConfig(env2),
                    ),
                )
            },
            (DriverPhase::AwaitUpdate, DriverEventView::Updated) => Some(
                (
                    InvokerView { phase: DriverPhase::AwaitReadyConfig, ..pre },
                    DriverActionView::FetchConfig,
                ),
            ),
            (DriverPhase::AwaitReadyConfig, DriverEventView::Config(c)) => {
                match spec_classify(c.state, c.last_update) {
                    Readiness::Ready => Some(
                        (
                            InvokerView { phase: DriverPhase::AwaitInvoke, ..pre },
                            DriverActionView::Invoke,
                        ),
                    ),
                    Readiness::NotReady => Some(
                        (
                            InvokerView { phase: DriverPhase::AwaitSleep, ..pre },
                            DriverActionView::Sleep,
                        ),
                    ),
                    Readiness::Fatal => Some(
                        (
                            InvokerView { phase: DriverPhase::Aborted, ..pre },
                            DriverActionView::Abort(RunErrorView::UnrecognizedUpdateStatus(c)),
                        ),
                    ),
                }
            },
            (DriverPhase::AwaitSleep, DriverEventView::Slept) => Some(
                (
                    InvokerView { phase: DriverPhase::AwaitReadyConfig, ..pre },
                    DriverActionView::FetchConfig,
                ),
            ),
            (DriverPhase::AwaitInvoke, DriverEventView::Invoked(r)) => {
                if pre.completed + 1 == pre.iterations {
                    Some(
                        (
                            InvokerView {
                                completed: pre.completed + 1,
                                phase: DriverPhase::Finished,
                                ..pre
                            },
                            DriverActionView::Done,
                        ),
                    )
                } else {
                    Some(
                        (
                            InvokerView {
                                completed: pre.completed + 1,
                                phase: DriverPhase::NeedToken,
                                ..pre
                            },
                            DriverActionView::ProvideToken,
                        ),
                    )
                }
            },
            _ => None,
        }
    }

    /// Feed one observed event into the driver; see [`next_spec`].
    pub fn step(&mut self, e: DriverEvent) -> (a: DriverAction)
        requires
            Self::next_spec(old(self)@, e@) is Some,
        ensures
            Self::next_spec(old(self)@, e@) == Some((final(self)@, a@)),
    {
        proof {
            use_type_invariant(&*self);
        }
        match e {
            DriverEvent::Config(c) => {
                if matches!(self.phase, DriverPhase::AwaitInitialConfig) {
                    self.env = c.env;
                    if self.iterations == 0 {
                        self.phase = DriverPhase::Finished;
                        DriverAction::Done
                    } else {
                        self.phase = DriverPhase::NeedToken;
                        DriverAction::ProvideToken
                    }
                } else {
                    match classify(c.state, c.last_update) {
                        Readiness::Ready => {
                            self.phase = DriverPhase::AwaitInvoke;
                            DriverAction::Invoke
                        },
                        Readiness::NotReady => {
                            self.phase = DriverPhase::AwaitSleep;
                            DriverAction::Sleep
                        },
                        Readiness::Fatal => {
                            self.phase = DriverPhase::Aborted;
                            DriverAction::Abort(RunError::UnrecognizedUpdateStatus(c))
                        },
                    }
                }
            },
            DriverEvent::Token(t) => {
                // EnvMap::insert may allocate, so move the mapping out of
                // the invariant-carrying driver while extending it.
                let mut env = EnvMap::new();
                core::mem::swap(&mut self.env, &mut env);
                env.insert("cold_start_uuid".to_owned(), t);
                let envc = env.clone();
                self.env = env;
                self.phase = DriverPhase::AwaitUpdate;
                DriverAction::UpdateConfig(envc)
            },
            DriverEvent::Updated => {
                self.phase = DriverPhase::AwaitReadyConfig;
                DriverAction::FetchConfig
            },
            DriverEvent::Slept => {
                self.phase = DriverPhase::AwaitReadyConfig;
                DriverAction::FetchConfig
            },
            DriverEvent::Invoked(r) => {
                if self.completed + 1 == self.iterations {
                    self.phase = DriverPhase::Finished;
                    self.completed = self.completed + 1;
                    DriverAction::Done
                } else {
                    self.phase = DriverPhase::NeedToken;
                    self.completed = self.completed + 1;
                    DriverAction::ProvideToken
                }
            },
        }
    }

    /// Draw a fresh token and feed it in; the one transition whose event
    /// the library produces itself.
    pub fn provide_token(&mut self) -> (a: DriverAction)
        requires
            old(self)@.phase == DriverPhase::NeedToken,
        ensures
            exists|t: Seq<char>|
                Self::next_spec(old(self)@, DriverEventView::Token(t)) == Some(
                    (final(self)@, a@),
                ),
    {
        let t = fresh_token();
        let ghost tv = t@;
        let a = self.step(DriverEvent::Token(t));
        proof {
            assert(Self::next_spec(old(self)@, DriverEventView::Token(tv)) == Some((self@, a@)));
        }
        a
    }

    /// The name or fully-qualified identifier of the benchmarked function.
    pub fn function_name(&self) -> (r: &String)
        ensures
            r@ == self@.function_name,
    {
        &self.function_name
    }

    /// The fixed payload sent on every invocation.
    pub fn payload(&self) -> (r: &String)
        ensures
            r@ == self@.payload,
    {
        &self.payload
    }

    /// The phase the driver currently stands in.
    pub fn phase(&self) -> (r: DriverPhase)
        ensures
            r == self@.phase,
    {
        self.phase
    }

    /// How many iterations have completed.
    pub fn completed(&self) -> (r: u16)
        ensures
            r == self@.completed,
    {
        self.completed
    }
}

/// Relies on uuid::Uuid::new_v4 and its hyphenated Display form: a fresh
/// version-4 identifier drawn from the process's entropy source. Nothing is
/// assumed of the value; uniqueness across draws is the platform's
/// expectation of the entropy source, not a proved fact.
#[verifier::external_body]
fn fresh_token() -> (r: String) {
    uuid::Uuid::new_v4().to_string()
}

/// A driver run: `states[0]` before any event; event `i` takes `states[i]`
/// to `states[i + 1]` while emitting `actions[i]`.
pub open spec fn valid_run(
    states: Seq<InvokerView>,
    events: Seq<DriverEventView>,
    actions: Seq<DriverActionView>,
) -> bool {
    &&& states.len() == events.len() + 1
    &&& actions.len() == events.len()
    &&& forall|i: int|
        0 <= i < events.len() ==> #[trigger] LambdaInvoker::next_spec(states[i], events[i])
            == Some((states[i + 1], actions[i]))
}

/// The state a driver run begins in, right after `start`: waiting for the
/// initial configuration, nothing completed.
pub open spec fn driver_initial(s: InvokerView) -> bool {
    s.phase == DriverPhase::AwaitInitialConfig && s.completed == 0
}

/// How many configuration mutations a trace of actions holds.
pub open spec fn count_updates(actions: Seq<DriverActionView>) -> nat
    decreases actions.len(),
{
    if actions.len() == 0 {
        0
    } else {
        count_updates(actions.drop_last()) + (if actions.last() is UpdateConfig {
            1nat
        } else {
            0nat
        })
    }
}

/// How many invocations a trace of actions holds.
pub open spec fn count_invokes(actions: Seq<DriverActionView>) -> nat
    decreases actions.len(),
{
    if actions.len() == 0 {
        0
    } else {
        count_invokes(actions.drop_last()) + (if actions.last() is Invoke {
            1nat
        } else {
            0nat
        })
    }
}

/// The forced value under [`refresh_key`] of each emitted mutation, in
/// order.
pub open spec fn update_values(actions: Seq<DriverActionView>) -> Seq<Seq<char>>
    decreases actions.len(),
{
    if actions.len() == 0 {
        Seq::empty()
    } else {
        match actions.last() {
            DriverActionView::UpdateConfig(m) => update_values(actions.drop_last()).push(
                m[refresh_key()],
            ),
            _ => update_values(actions.drop_last()),
        }
    }
}

/// The tokens fed into the driver, in order.
pub open spec fn token_values(events: Seq<DriverEventView>) -> Seq<Seq<char>>
    decreases events.len(),
{
    if events.len() == 0 {
        Seq::empty()
    } else {
        match events.last() {
            DriverEventView::Token(t) => token_values(events.drop_last()).push(t),
            _ => token_values(events.drop_last()),
        }
    }
}

/// The mutations and invocations of a trace, in order: `true` for a
/// mutation, `false` for an invocation, every other action dropped.
pub open spec fn mut_invoke_trace(actions: Seq<DriverActionView>) -> Seq<bool>
    decreases actions.len(),
{
    if actions.len() == 0 {
        Seq::empty()
    } else {
        match actions.last() {
            DriverActionView::UpdateConfig(m) => mut_invoke_trace(actions.drop_last()).push(true),
            DriverActionView::Invoke => mut_invoke_trace(actions.drop_last()).push(false),
            _ => mut_invoke_trace(actions.drop_last()),
        }
    }
}

/// The strictly alternating sequence mutation, invocation, mutation, … of
/// length `k`.
pub open spec fn alternating(k: nat) -> Seq<bool> {
    Seq::new(k, |i: int| i % 2 == 0)
}

/// Whether a mutation has been emitted whose invocation has not.
pub open spec fn in_progress_update(phase: DriverPhase) -> nat {
    match phase {
        DriverPhase::AwaitUpdate => 1,
        DriverPhase::AwaitReadyConfig => 1,
        DriverPhase::AwaitSleep => 1,
        DriverPhase::AwaitInvoke => 1,
        _ => 0,
    }
}

/// Whether an invocation has been emitted that has not completed.
pub open spec fn in_progress_invoke(phase: DriverPhase) -> nat {
    if phase is AwaitInvoke {
        1
    } else {
        0
    }
}

/// The running invariant of every driver run: the target's identity never
/// changes; completed iterations never exceed the configured count; while
/// the run has not aborted, the trace holds exactly one mutation per
/// iteration entered and one invocation per iteration completed, strictly
/// alternating, and the forced values are exactly the tokens fed in; a
/// finished run has completed every configured iteration.
pub proof fn lemma_run_invariant(
    states: Seq<InvokerView>,
    events: Seq<DriverEventView>,
    actions: Seq<DriverActionView>,
)
    requires
        valid_run(states, events, actions),
        states.len() >= 1,
        driver_initial(states[0]),
    ensures
        states.last().function_name == states[0].function_name,
        states.last().payload == states[0].payload,
        states.last().iterations == states[0].iterations,
        states.last().completed <= states[0].iterations,
        mid_iteration(states.last().phase) ==> states.last().completed < states[0].iterations,
        states.last().phase == DriverPhase::AwaitInitialConfig ==> states.last().completed == 0,
        states.last().phase != DriverPhase::Start,
        states.last().phase == DriverPhase::Finished ==> states.last().completed
            == states[0].iterations,
        update_values(actions) == token_values(events),
        states.last().phase != DriverPhase::Aborted ==> {
            &&& count_updates(actions) == states.last().completed + in_progress_update(
                states.last().phase,
            )
            &&& count_invokes(actions) == states.last().completed + in_progress_invoke(
                states.last().phase,
            )
            &&& mut_invoke_trace(actions) == alternating(
                2 * states.last().completed + in_progress_update(states.last().phase)
                    + in_progress_invoke(states.last().phase),
            )
        },
    decreases events.len(),
{
    if events.len() == 0 {
        assert(states.last() == states[0]);
        assert(update_values(actions) =~= token_values(events));
        assert(mut_invoke_trace(actions) =~= alternating(0));
    } else {
        let sp = states.drop_last();
        let ep = events.drop_last();
        let ap = actions.drop_last();
        assert forall|i: int|
            0 <= i < ep.len() implies #[trigger] LambdaInvoker::next_spec(sp[i], ep[i]) == Some(
            (sp[i + 1], ap[i]),
        ) by {
            assert(LambdaInvoker::next_spec(states[i], events[i]) == Some(
                (states[i + 1], actions[i]),
            ));
        }
        lemma_run_invariant(sp, ep, ap);
        let pre = states[states.len() - 2];
        let e = events.last();
        let a = actions.last();
        let post = states.last();
        assert(LambdaInvoker::next_spec(pre, e) == Some((post, a))) by {
            assert(LambdaInvoker::next_spec(states[events.len() - 1], events[events.len() - 1])
                == Some((states[events.len() as int], actions[events.len() - 1])));
        }
        assert(sp.last() == pre);
        let k = 2 * pre.completed + in_progress_update(pre.phase) + in_progress_invoke(pre.phase);
        match e {
            DriverEventView::Token(t) => {
                assert(post.env[refresh_key()] == t);
                assert(update_values(actions) =~= token_values(events));
                assert(alternating(k + 1) =~= alternating(k).push(true));
            },
            DriverEventView::Config(c) => {
                if pre.phase is AwaitReadyConfig && spec_classify(c.state, c.last_update)
                    is Ready {
                    assert(alternating(k + 1) =~= alternating(k).push(false));
                }
                assert(update_values(actions) =~= token_values(events));
            },
            _ => {
                assert(update_values(actions) =~= token_values(events));
            },
        }
    }
}

/// ITERATION COUNT LAW. A run that begins fresh and reaches the finished
/// phase has emitted exactly one configuration mutation and exactly one
/// invocation per configured iteration, strictly alternating — mutation,
/// invocation, mutation, invocation, … — and the value forced under
/// [`refresh_key`] by the i-th mutation is exactly the i-th token drawn; in
/// particular, distinct tokens force distinct values.
pub proof fn lemma_completed_run_counts(
    states: Seq<InvokerView>,
    events: Seq<DriverEventView>,
    actions: Seq<DriverActionView>,
)
    requires
        valid_run(states, events, actions),
        states.len() >= 1,
        driver_initial(states[0]),
        states.last().phase == DriverPhase::Finished,
    ensures
        count_updates(actions) == states[0].iterations,
        count_invokes(actions) == states[0].iterations,
        mut_invoke_trace(actions) == alternating(2 * states[0].iterations),
        update_values(actions) == token_values(events),
{
    lemma_run_invariant(states, events, actions);
}

/// DISTINCT FORCED VALUES LAW. In a finished run, when the tokens drawn
/// were pairwise distinct, the values forced by the mutations are pairwise
/// distinct as well: each mutation forces exactly the token of its
/// iteration.
pub proof fn lemma_distinct_tokens_force_distinct_values(
    states: Seq<InvokerView>,
    events: Seq<DriverEventView>,
    actions: Seq<DriverActionView>,
)
    requires
        valid_run(states, events, actions),
        states.len() >= 1,
        driver_initial(states[0]),
        states.last().phase == DriverPhase::Finished,
        forall|i: int, j: int|
            0 <= i < j < token_values(events).len() ==> token_values(events)[i] != token_values(
                events,
            )[j],
    ensures
        forall|i: int, j: int|
            0 <= i < j < update_values(actions).len() ==> update_values(actions)[i]
                != update_values(actions)[j],
{
    lemma_completed_run_counts(states, events, actions);
}

/// Whether an event is a configuration snapshot that classifies as not
/// ready.
pub open spec fn is_not_ready_config(e: DriverEventView) -> bool {
    match e {
        DriverEventView::Config(c) => spec_classify(c.state, c.last_update) is NotReady,
        _ => false,
    }
}

/// Whether an event is a configuration snapshot that classifies as ready.
pub open spec fn is_ready_config(e: DriverEventView) -> bool {
    match e {
        DriverEventView::Config(c) => spec_classify(c.state, c.last_update) is Ready,
        _ => false,
    }
}

/// READINESS POLL LAW. From the readiness poll, any number of not-ready
/// snapshots — each answered by a sleep and another fetch — followed by one
/// ready snapshot yields exactly one invocation and no further mutation:
/// every action but the last is a sleep or a fetch, the last is the single
/// invocation, and no iteration completes in between.
pub proof fn lemma_ready_poll_single_invoke(
    states: Seq<InvokerView>,
    events: Seq<DriverEventView>,
    actions: Seq<DriverActionView>,
    k: nat,
)
    requires
        valid_run(states, events, actions),
        states[0].phase == DriverPhase::AwaitReadyConfig,
        events.len() == 2 * k + 1,
        forall|j: int|
            0 <= j < k ==> is_not_ready_config(#[trigger] events[2 * j]) && events[2 * j + 1]
                is Slept,
        is_ready_config(events[2 * k as int]),
    ensures
        states.last().phase == DriverPhase::AwaitInvoke,
        states.last().completed == states[0].completed,
        actions.last() is Invoke,
        forall|i: int| 0 <= i < actions.len() - 1 ==> (#[trigger] actions[i] is Sleep || actions[i]
            is FetchConfig),
    decreases k,
{
    if k == 0 {
        assert(LambdaInvoker::next_spec(states[0], events[0]) == Some((states[1], actions[0])));
    } else {
        let ghost z: int = 0;
        assert(is_not_ready_config(events[2 * z]) && events[2 * z + 1] is Slept);
        assert(LambdaInvoker::next_spec(states[0], events[0]) == Some((states[1], actions[0])));
        assert(is_not_ready_config(events[0]));
        assert(events[1] is Slept);
        assert(LambdaInvoker::next_spec(states[1], events[1]) == Some((states[2], actions[1])));
        let ss = states.skip(2);
        let es = events.skip(2);
        let asx = actions.skip(2);
        assert forall|i: int|
            0 <= i < es.len() implies #[trigger] LambdaInvoker::next_spec(ss[i], es[i]) == Some(
            (ss[i + 1], asx[i]),
        ) by {
            assert(LambdaInvoker::next_spec(states[i + 2], events[i + 2]) == Some(
                (states[i + 3], actions[i + 2]),
            ));
        }
        assert forall|j: int|
            0 <= j < k - 1 implies is_not_ready_config(#[trigger] es[2 * j]) && es[2 * j + 1]
            is Slept by {
            assert(is_not_ready_config(events[2 * (j + 1)]));
            assert(events[2 * (j + 1) + 1] is Slept);
            assert(es[2 * j] == events[2 * j + 2]);
            assert(es[2 * j + 1] == events[2 * j + 3]);
        }
        assert(es[2 * (k as int - 1)] == events[2 * k as int]);
        lemma_ready_poll_single_invoke(ss, es, asx, (k - 1) as nat);
        assert(ss.last() == states.last());
        assert(asx.last() == actions.last());
        assert forall|i: int|
            0 <= i < actions.len() - 1 implies (#[trigger] actions[i] is Sleep || actions[i]
            is FetchConfig) by {
            if i >= 2 {
                assert(asx[i - 2] == actions[i]);
            }
        }
    }
}

/// FATAL OUTCOME LAW. When the readiness poll observes a snapshot whose
/// activation signal does not block (absent or active) and whose
/// last-update outcome is unrecognized, the driver aborts at once with the
/// unrecoverable-platform-state error carrying that snapshot — and an
/// aborted driver accepts no further event, so the run ends there rather
/// than polling on.
pub proof fn lemma_unrecognized_outcome_aborts(pre: InvokerView, c: ConfigView)
    requires
        pre.phase == DriverPhase::AwaitReadyConfig,
        c.state is None || c.state == Some(crate::readiness::ActivationState::Active),
        c.last_update == Some(crate::readiness::UpdateOutcome::Unrecognized),
    ensures
        LambdaInvoker::next_spec(pre, DriverEventView::Config(c)) == Some(
            (
                (InvokerView { phase: DriverPhase::Aborted, ..pre }),
                DriverActionView::Abort(RunErrorView::UnrecognizedUpdateStatus(c)),
            ),
        ),
        forall|e: DriverEventView|
            LambdaInvoker::next_spec((InvokerView { phase: DriverPhase::Aborted, ..pre }), e)
                is None,
{
}

/// A run that reaches the aborted phase at step `i` ends there: no event
/// is accepted afterwards.
pub proof fn lemma_abort_ends_run(
    states: Seq<InvokerView>,
    events: Seq<DriverEventView>,
    actions: Seq<DriverActionView>,
    i: int,
)
    requires
        valid_run(states, events, actions),
        0 <= i < states.len(),
        states[i].phase == DriverPhase::Aborted,
    ensures
        i == events.len(),
{
    if i < events.len() {
        assert(LambdaInvoker::next_spec(states[i], events[i]) == Some((states[i + 1], actions[i])));
    }
}

} // verus!
