use coldstart::env::EnvMap;
use coldstart::error::RunError;
use coldstart::invoker::{DriverAction, DriverEvent, DriverPhase, LambdaInvoker};
use coldstart::readiness::{classify, ActivationState, FunctionConfig, Readiness, UpdateOutcome};

fn config(
    state: Option<ActivationState>,
    last_update: Option<UpdateOutcome>,
) -> FunctionConfig {
    FunctionConfig { env: EnvMap::new(), state, last_update }
}

fn ready_config() -> FunctionConfig {
    config(Some(ActivationState::Active), Some(UpdateOutcome::Successful))
}

fn env_value(env: &EnvMap, key: &str) -> Option<String> {
    for (k, v) in env.entries() {
        if k.as_str() == key {
            return Some(v.clone());
        }
    }
    None
}

#[test]
fn classify_readiness_signals() {
    assert_eq!(classify(None, None), Readiness::NotReady);
    assert_eq!(classify(Some(ActivationState::NotActive), None), Readiness::NotReady);
    assert_eq!(
        classify(Some(ActivationState::NotActive), Some(UpdateOutcome::Successful)),
        Readiness::NotReady
    );
    assert_eq!(
        classify(Some(ActivationState::Active), Some(UpdateOutcome::Successful)),
        Readiness::Ready
    );
    assert_eq!(classify(None, Some(UpdateOutcome::Successful)), Readiness::Ready);
    assert_eq!(
        classify(Some(ActivationState::Active), Some(UpdateOutcome::Failed)),
        Readiness::NotReady
    );
    assert_eq!(
        classify(Some(ActivationState::Active), Some(UpdateOutcome::InProgress)),
        Readiness::NotReady
    );
    assert_eq!(classify(Some(ActivationState::Active), None), Readiness::NotReady);
    assert_eq!(
        classify(Some(ActivationState::Active), Some(UpdateOutcome::Unrecognized)),
        Readiness::Fatal
    );
}

#[test]
fn ready_poll_yields_exactly_one_invocation() {
    let mut d = LambdaInvoker::new("target".to_string(), "{}".to_string(), 1);
    assert!(matches!(d.start(), DriverAction::FetchConfig));
    assert!(matches!(d.step(DriverEvent::Config(config(None, None))), DriverAction::ProvideToken));
    assert!(matches!(
        d.step(DriverEvent::Token("tok-1".to_string())),
        DriverAction::UpdateConfig(_)
    ));
    assert!(matches!(d.step(DriverEvent::Updated), DriverAction::FetchConfig));
    // any number of not-ready polls (here three), each answered by a sleep
    // and another fetch, never a second mutation or invocation
    let mut invokes = 0;
    for _ in 0..3 {
        let a = d.step(DriverEvent::Config(config(Some(ActivationState::NotActive), None)));
        assert!(matches!(a, DriverAction::Sleep));
        let a = d.step(DriverEvent::Slept);
        assert!(matches!(a, DriverAction::FetchConfig));
    }
    let a = d.step(DriverEvent::Config(ready_config()));
    if matches!(a, DriverAction::Invoke) {
        invokes += 1;
    }
    assert_eq!(invokes, 1);
    assert_eq!(d.completed(), 0);
    assert!(matches!(d.step(DriverEvent::Invoked(None)), DriverAction::Done));
    assert_eq!(d.completed(), 1);
    assert_eq!(d.phase(), DriverPhase::Finished);
}

#[test]
fn three_iterations_make_three_distinct_mutations_and_three_invocations() {
    let mut d = LambdaInvoker::new("target".to_string(), "{}".to_string(), 3);
    let tokens = ["tok-a", "tok-b", "tok-c"];
    let mut forced: Vec<String> = Vec::new();
    let mut invokes = 0;
    let mut a = d.start();
    assert!(matches!(a, DriverAction::FetchConfig));
    a = d.step(DriverEvent::Config(config(None, None)));
    let mut next_token = 0;
    loop {
        a = match a {
            DriverAction::ProvideToken => {
                let t = tokens[next_token];
                next_token += 1;
                d.step(DriverEvent::Token(t.to_string()))
            }
            DriverAction::UpdateConfig(env) => {
                forced.push(env_value(&env, "cold_start_uuid").unwrap());
                d.step(DriverEvent::Updated)
            }
            DriverAction::FetchConfig => d.step(DriverEvent::Config(ready_config())),
            DriverAction::Invoke => {
                invokes += 1;
                d.step(DriverEvent::Invoked(None))
            }
            DriverAction::Sleep => d.step(DriverEvent::Slept),
            DriverAction::Done => break,
            DriverAction::Abort(_) => panic!("run aborted"),
        };
    }
    // exactly three mutations, in order, each forcing exactly the token
    // drawn for its iteration — distinct tokens, distinct forced values
    assert_eq!(forced, vec!["tok-a", "tok-b", "tok-c"]);
    assert_eq!(invokes, 3);
    assert_eq!(d.completed(), 3);
    assert_eq!(d.phase(), DriverPhase::Finished);
}

#[test]
fn mutations_and_invocations_strictly_alternate() {
    let mut d = LambdaInvoker::new("target".to_string(), "{}".to_string(), 2);
    let mut trace: Vec<&'static str> = Vec::new();
    d.start();
    let mut a = d.step(DriverEvent::Config(config(None, None)));
    let mut i = 0;
    loop {
        a = match a {
            DriverAction::ProvideToken => {
                i += 1;
                d.step(DriverEvent::Token(format!("tok-{}", i)))
            }
            DriverAction::UpdateConfig(_) => {
                trace.push("mutation");
                d.step(DriverEvent::Updated)
            }
            DriverAction::FetchConfig => d.step(DriverEvent::Config(ready_config())),
            DriverAction::Invoke => {
                trace.push("invocation");
                d.step(DriverEvent::Invoked(None))
            }
            DriverAction::Sleep => d.step(DriverEvent::Slept),
            DriverAction::Done => break,
            DriverAction::Abort(_) => panic!("run aborted"),
        };
    }
    assert_eq!(trace, vec!["mutation", "invocation", "mutation", "invocation"]);
}

#[test]
fn function_error_on_invocation_is_not_fatal() {
    let mut d = LambdaInvoker::new("target".to_string(), "{}".to_string(), 1);
    d.start();
    d.step(DriverEvent::Config(config(None, None)));
    d.step(DriverEvent::Token("tok".to_string()));
    d.step(DriverEvent::Updated);
    d.step(DriverEvent::Config(ready_config()));
    let a = d.step(DriverEvent::Invoked(Some("Unhandled".to_string())));
    assert!(matches!(a, DriverAction::Done));
    assert_eq!(d.phase(), DriverPhase::Finished);
}

#[test]
fn zero_iterations_finish_right_after_the_initial_fetch() {
    let mut d = LambdaInvoker::new("target".to_string(), "{}".to_string(), 0);
    assert!(matches!(d.start(), DriverAction::FetchConfig));
    let a = d.step(DriverEvent::Config(config(None, None)));
    assert!(matches!(a, DriverAction::Done));
    assert_eq!(d.phase(), DriverPhase::Finished);
    assert_eq!(d.completed(), 0);
}

#[test]
fn unrecognized_update_status_aborts_the_run() {
    let mut d = LambdaInvoker::new("target".to_string(), "{}".to_string(), 1);
    d.start();
    d.step(DriverEvent::Config(config(None, None)));
    d.step(DriverEvent::Token("tok".to_string()));
    d.step(DriverEvent::Updated);
    let a = d.step(DriverEvent::Config(config(
        Some(ActivationState::Active),
        Some(UpdateOutcome::Unrecognized),
    )));
    match a {
        DriverAction::Abort(RunError::UnrecognizedUpdateStatus(snapshot)) => {
            assert_eq!(snapshot.last_update, Some(UpdateOutcome::Unrecognized));
        }
        _ => panic!("expected a fatal abort"),
    }
    assert_eq!(d.phase(), DriverPhase::Aborted);
}

#[test]
fn unrecognized_update_status_message() {
    let e = RunError::UnrecognizedUpdateStatus(config(None, Some(UpdateOutcome::Unrecognized)));
    assert_eq!(e.message(), "Unknown LastUpdateStatus");
}

#[test]
fn provide_token_draws_a_fresh_value() {
    let mut d = LambdaInvoker::new("target".to_string(), "{}".to_string(), 1);
    d.start();
    d.step(DriverEvent::Config(config(None, None)));
    let a = d.provide_token();
    match a {
        DriverAction::UpdateConfig(env) => {
            let v = env_value(&env, "cold_start_uuid").unwrap();
            assert!(!v.is_empty());
        }
        _ => panic!("expected the mutation"),
    }
}

#[test]
fn env_map_insert_overwrites_and_keeps_other_keys() {
    let mut env = EnvMap::new();
    env.insert("a".to_string(), "1".to_string());
    env.insert("b".to_string(), "2".to_string());
    env.insert("a".to_string(), "3".to_string());
    assert_eq!(env.entries().len(), 2);
    assert_eq!(env_value(&env, "a").unwrap(), "3");
    assert_eq!(env_value(&env, "b").unwrap(), "2");
}
