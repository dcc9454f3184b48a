use coldstart::analyzer::{
    derive_log_group_name, resolve_log_group_name, LambdaAnalyzer, PollerAction, PollerEvent,
    PollerPhase, QueryStatus, QUERY_TEMPLATE,
};
use coldstart::env::EnvMap;
use coldstart::error::RunError;
use coldstart::invoker::{DriverAction, DriverEvent, DriverPhase, LambdaInvoker};
use coldstart::numeric::Decimal;
use coldstart::readiness::{ActivationState, FunctionConfig, UpdateOutcome};
use coldstart::stats::{ParseError, ResultField, Stats};

fn field(name: &str, value: &str) -> ResultField {
    ResultField { field: name.to_string(), value: value.to_string() }
}

#[test]
fn derive_log_group_name_from_plain_name() {
    assert_eq!(derive_log_group_name("target"), "/aws/lambda/target");
}

#[test]
fn derive_log_group_name_takes_final_colon_segment() {
    assert_eq!(
        derive_log_group_name("arn:aws:lambda:eu-west-1:123456789012:function:target"),
        "/aws/lambda/target"
    );
}

#[test]
fn resolve_log_group_name_prefers_the_explicit_name() {
    assert_eq!(
        resolve_log_group_name(Some("/custom/group".to_string()), "a:b"),
        "/custom/group"
    );
    assert_eq!(resolve_log_group_name(None, "a:b"), "/aws/lambda/b");
}

#[test]
fn query_string_is_the_template_without_a_filter() {
    let a = LambdaAnalyzer::new("/aws/lambda/target".to_string(), None, 0);
    assert_eq!(a.query_string().as_str(), QUERY_TEMPLATE);
}

#[test]
fn query_string_prepends_the_log_stream_filter() {
    let a = LambdaAnalyzer::new(
        "/aws/lambda/target".to_string(),
        Some("/2024\\/05/".to_string()),
        0,
    );
    let expected = format!("filter @logStream like {} |{}", "/2024\\/05/", QUERY_TEMPLATE);
    assert_eq!(a.query_string().as_str(), expected);
}

#[test]
fn missing_log_group_aborts_before_any_query() {
    let mut a = LambdaAnalyzer::new("/aws/lambda/absent".to_string(), None, 0);
    match a.start() {
        PollerAction::DescribeLogGroup(name) => assert_eq!(name, "/aws/lambda/absent"),
        _ => panic!("expected the existence check"),
    }
    match a.step(PollerEvent::LogGroup(false)) {
        PollerAction::Abort(RunError::LogGroupMissing(name)) => {
            assert_eq!(name, "/aws/lambda/absent");
        }
        _ => panic!("expected the precondition failure"),
    }
    assert_eq!(a.phase(), PollerPhase::Aborted);
}

#[test]
fn missing_log_group_message_names_the_group() {
    let e = RunError::LogGroupMissing("/aws/lambda/absent".to_string());
    assert_eq!(e.message(), "Log group /aws/lambda/absent does not exist");
}

#[test]
fn poll_to_completion_reduces_the_grouped_rows() {
    let mut a = LambdaAnalyzer::new("/aws/lambda/target".to_string(), None, 1700000000);
    a.start();
    let req = match a.step(PollerEvent::LogGroup(true)) {
        PollerAction::StartQuery(req) => req,
        _ => panic!("expected the query submission"),
    };
    assert_eq!(req.log_group_name, "/aws/lambda/target");
    assert_eq!(req.query_string.as_str(), QUERY_TEMPLATE);
    assert_eq!(req.start_time, 1700000000);
    match a.step(PollerEvent::QueryStarted("query-1".to_string())) {
        PollerAction::GetResults(id) => assert_eq!(id, "query-1"),
        _ => panic!("expected a poll"),
    }
    // no status yet: wait and poll again
    assert!(matches!(a.step(PollerEvent::Results(None, vec![])), PollerAction::Sleep));
    match a.step(PollerEvent::Slept) {
        PollerAction::GetResults(id) => assert_eq!(id, "query-1"),
        _ => panic!("expected a poll"),
    }
    let rows = vec![vec![
        field("memorySize", "128"),
        field("p50", "120.5"),
        field("count", "7"),
    ]];
    let out = match a.step(PollerEvent::Results(Some(QueryStatus::Complete), rows)) {
        PollerAction::Done(out) => out,
        _ => panic!("expected completion"),
    };
    assert_eq!(out.len(), 1);
    let mut expected = Stats::default();
    expected.mem = 128;
    expected.p50 = Decimal { units: 120, frac: 5, scale: 1 };
    expected.count = 7;
    assert_eq!(out[0], expected);
    assert_eq!(a.phase(), PollerPhase::Finished);
}

#[test]
fn completed_group_without_memory_key_is_dropped() {
    // the grouped reduction treats a zero grouping key as an incomplete
    // group, so a result row carrying only durations yields no record
    let mut a = LambdaAnalyzer::new("/aws/lambda/target".to_string(), None, 0);
    a.start();
    a.step(PollerEvent::LogGroup(true));
    a.step(PollerEvent::QueryStarted("query-1".to_string()));
    let rows = vec![vec![field("p50", "120.5"), field("count", "7")]];
    let out = match a.step(PollerEvent::Results(Some(QueryStatus::Complete), rows)) {
        PollerAction::Done(out) => out,
        _ => panic!("expected completion"),
    };
    assert_eq!(out.len(), 0);
}

#[test]
fn running_and_other_statuses_both_keep_polling() {
    let mut a = LambdaAnalyzer::new("/aws/lambda/target".to_string(), None, 0);
    a.start();
    a.step(PollerEvent::LogGroup(true));
    a.step(PollerEvent::QueryStarted("query-1".to_string()));
    assert!(matches!(
        a.step(PollerEvent::Results(Some(QueryStatus::Running), vec![])),
        PollerAction::Sleep
    ));
    a.step(PollerEvent::Slept);
    // a failed or cancelled query is polled again as well, not surfaced
    assert!(matches!(
        a.step(PollerEvent::Results(Some(QueryStatus::Other), vec![])),
        PollerAction::Sleep
    ));
    a.step(PollerEvent::Slept);
    assert_eq!(a.phase(), PollerPhase::AwaitResults);
}

#[test]
fn malformed_metric_value_aborts_with_parse_error() {
    let mut a = LambdaAnalyzer::new("/aws/lambda/target".to_string(), None, 0);
    a.start();
    a.step(PollerEvent::LogGroup(true));
    a.step(PollerEvent::QueryStarted("query-1".to_string()));
    let rows = vec![vec![field("memorySize", "128"), field("p50", "fast")]];
    match a.step(PollerEvent::Results(Some(QueryStatus::Complete), rows)) {
        PollerAction::Abort(RunError::MetricParse(pe)) => {
            assert_eq!(pe.field, "p50");
            assert_eq!(pe.value, "fast");
        }
        _ => panic!("expected the parse failure"),
    }
    assert_eq!(a.phase(), PollerPhase::Aborted);
    let e = RunError::MetricParse(ParseError {
        field: "p50".to_string(),
        value: "fast".to_string(),
    });
    assert_eq!(e.message(), "Failed to parse metric field p50 value fast");
}

#[test]
fn end_to_end_drive_then_analyze() {
    // the target exists and becomes ready after one not-ready poll
    let mut d = LambdaInvoker::new("target".to_string(), "{}".to_string(), 1);
    assert!(matches!(d.start(), DriverAction::FetchConfig));
    let initial = FunctionConfig { env: EnvMap::new(), state: None, last_update: None };
    assert!(matches!(d.step(DriverEvent::Config(initial)), DriverAction::ProvideToken));
    assert!(matches!(
        d.step(DriverEvent::Token("tok-1".to_string())),
        DriverAction::UpdateConfig(_)
    ));
    assert!(matches!(d.step(DriverEvent::Updated), DriverAction::FetchConfig));
    let not_ready = FunctionConfig {
        env: EnvMap::new(),
        state: Some(ActivationState::NotActive),
        last_update: None,
    };
    assert!(matches!(d.step(DriverEvent::Config(not_ready)), DriverAction::Sleep));
    assert!(matches!(d.step(DriverEvent::Slept), DriverAction::FetchConfig));
    let ready = FunctionConfig {
        env: EnvMap::new(),
        state: Some(ActivationState::Active),
        last_update: Some(UpdateOutcome::Successful),
    };
    assert!(matches!(d.step(DriverEvent::Config(ready)), DriverAction::Invoke));
    assert!(matches!(d.step(DriverEvent::Invoked(None)), DriverAction::Done));
    assert_eq!(d.phase(), DriverPhase::Finished);

    // the log source exists; the query completes after one no-status poll
    let mut a = LambdaAnalyzer::new("/aws/lambda/target".to_string(), None, 100);
    a.start();
    a.step(PollerEvent::LogGroup(true));
    a.step(PollerEvent::QueryStarted("query-1".to_string()));
    assert!(matches!(a.step(PollerEvent::Results(None, vec![])), PollerAction::Sleep));
    a.step(PollerEvent::Slept);
    let rows = vec![vec![
        field("memorySize", "128"),
        field("p50", "120.5"),
        field("count", "7"),
    ]];
    let out = match a.step(PollerEvent::Results(Some(QueryStatus::Complete), rows)) {
        PollerAction::Done(out) => out,
        _ => panic!("expected completion"),
    };
    let mut expected = Stats::default();
    expected.mem = 128;
    expected.p50 = Decimal { units: 120, frac: 5, scale: 1 };
    expected.count = 7;
    assert_eq!(out, vec![expected]);
}
