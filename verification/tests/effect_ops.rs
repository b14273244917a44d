use a3s_effect::effect::{
    after_attempt, after_failure, after_success, deadline_result, map_result, race_first,
    retry_event, span_event, started, zip_first, zip_second, Ended, Flow, Half, ReleaseOnce, Retry,
    Side,
};
use a3s_effect::{ActorError, Exit, HarnessConfig, Schedule, TraceEvent};
use std::time::Duration;

type Run<A> = Result<A, Exit<ActorError>>;

fn fail<A>(message: &str) -> Run<A> {
    Err(Exit::Fail(ActorError::Config(message.into())))
}

/// Makes attempts until none follows; the attempts end as listed.
fn retry<A: Clone>(
    remaining: u32,
    results: Vec<Run<A>>,
    trace: &mut Vec<TraceEvent>,
) -> (Run<A>, usize) {
    let mut schedule = Schedule {
        remaining,
        delay: Duration::ZERO,
    };
    let mut attempts = 0;
    loop {
        let result = results[attempts].clone();
        attempts += 1;
        match after_attempt(schedule, result) {
            Retry::End(result) => return (result, attempts),
            Retry::Again(next) => {
                assert_eq!(next.delay, schedule.delay);
                schedule = next;
                trace.push(retry_event());
            }
        }
    }
}

#[test]
fn catch_fail_handles_expected_errors_and_lets_defects_through() {
    let failed: Run<usize> = fail("missing");
    match after_failure(failed) {
        Flow::Next(error) => assert!(error.message().len() > 0),
        Flow::End(_) => panic!("an expected failure is handled"),
    }
    let defect: Run<usize> = Err(Exit::Die("boom".into()));
    match after_failure(defect) {
        Flow::Next(_) => panic!("a defect is not handled"),
        Flow::End(result) => {
            assert!(matches!(result, Err(Exit::Die(message)) if message == "boom"))
        }
    }
}

#[test]
fn catch_fail_leaves_interrupt_unchanged() {
    let interrupted: Run<i32> = Err(Exit::Interrupt);
    match after_failure(interrupted) {
        Flow::Next(_) => panic!("interruption is not handled"),
        Flow::End(result) => assert!(matches!(result, Err(Exit::Interrupt))),
    }
    match after_failure::<i32, ActorError>(Ok(4)) {
        Flow::Next(_) => panic!("a success is not handled"),
        Flow::End(result) => assert_eq!(result, Ok(4)),
    }
}

#[test]
fn retry_repeats_expected_failures_and_stops_on_defects() {
    let mut trace = Vec::new();
    let (result, attempts) = retry(1, vec![fail("once"), Ok("ok")], &mut trace);
    assert_eq!(result.unwrap(), "ok");
    assert_eq!(attempts, 2);
    assert!(trace
        .iter()
        .any(|event| event.name == "retry" && event.outcome == "fail"));

    let mut trace = Vec::new();
    let defects: Vec<Run<()>> = vec![Err(Exit::Die("no".into())); 4];
    let (result, attempts) = retry(3, defects, &mut trace);
    assert!(matches!(result, Err(Exit::Die(_))));
    assert_eq!(attempts, 1);
}

#[test]
fn retry_with_no_remaining_runs_once_and_leaves_interrupt() {
    let mut trace = Vec::new();
    let (result, attempts) = retry(0, vec![fail::<()>("once")], &mut trace);
    assert_eq!(result, Err(Exit::Fail(ActorError::Config("once".into()))));
    assert_eq!(attempts, 1);

    let mut trace = Vec::new();
    let (result, attempts) = retry::<()>(2, vec![Err(Exit::Interrupt)], &mut trace);
    assert!(matches!(result, Err(Exit::Interrupt)));
    assert_eq!(attempts, 1);
    assert!(trace.iter().all(|event| event.name != "retry"));
}

#[test]
fn infer_schedule_runs_a_defect_once() {
    let model_attempts = 3_u32;
    let mut trace = Vec::new();
    let (result, attempts) = retry::<()>(
        model_attempts.saturating_sub(1),
        vec![Err(Exit::Die("m".into()))],
        &mut trace,
    );
    assert!(matches!(result, Err(Exit::Die(message)) if message == "m"));
    assert_eq!(attempts, 1);
}

#[test]
fn failures_use_all_attempts_of_the_schedule() {
    let mut trace = Vec::new();
    let (result, attempts) = retry::<()>(3, vec![fail("a"), fail("b"), fail("c"), fail("d")], &mut trace);
    assert_eq!(attempts, 4);
    assert_eq!(trace.len(), 3);
    assert_eq!(result, fail("d"));
}

#[test]
fn map_and_and_then_transform_success_and_skip_other_exits() {
    let mapped = map_result::<i32, i32, ActorError, _>(Ok(2), |n: i32| n + 3);
    assert_eq!(mapped.unwrap(), 5);
    match after_success::<i32, i32, ActorError>(Ok(2)) {
        Flow::Next(n) => assert_eq!(n + 3, 5),
        Flow::End(_) => panic!("a success goes on"),
    }

    let never = |_n: i32| -> i32 { panic!("not called") };
    let mapped = map_result(fail::<i32>("x"), never);
    assert_eq!(mapped, Err(Exit::Fail(ActorError::Config("x".into()))));
    let bound: Flow<i32, Run<i32>> = after_success(fail::<i32>("x"));
    assert!(matches!(bound, Flow::End(Err(Exit::Fail(ActorError::Config(m)))) if m == "x"));

    let mapped = map_result::<i32, i32, ActorError, _>(Err(Exit::Die("d".into())), never);
    assert!(matches!(mapped, Err(Exit::Die(message)) if message == "d"));
    let bound: Flow<i32, Run<i32>> = after_success(Err(Exit::Die("d".into())));
    assert!(matches!(bound, Flow::End(Err(Exit::Die(message))) if message == "d"));

    let mapped = map_result::<i32, i32, ActorError, _>(Err(Exit::Interrupt), never);
    assert!(matches!(mapped, Err(Exit::Interrupt)));
    let bound: Flow<i32, Run<i32>> = after_success(Err(Exit::Interrupt));
    assert!(matches!(bound, Flow::End(Err(Exit::Interrupt))));
}

#[test]
fn a_cancelled_scope_starts_nothing() {
    assert_eq!(started::<ActorError>(true), Err(Exit::Interrupt));
    assert_eq!(started::<ActorError>(false), Ok(()));
}

#[test]
fn zip_par_cancels_the_sibling_after_a_failure() {
    let half = zip_first::<(), (), ActorError>(Ended::Left(fail("left")));
    assert!(matches!(half, Half::Stopped { cancel: Side::Right, .. }));
    let answer = zip_second(half, Ended::Right(Err(Exit::Interrupt)));
    assert!(matches!(answer, Err(Exit::Fail(ActorError::Config(message))) if message == "left"));

    let half = zip_first::<(), (), ActorError>(Ended::Right(Err(Exit::Die("right".into()))));
    assert!(matches!(half, Half::Stopped { cancel: Side::Left, .. }));
    let answer = zip_second(half, Ended::Left(Ok(())));
    assert!(matches!(answer, Err(Exit::Die(message)) if message == "right"));
}

#[test]
fn zip_par_gives_both_values_whichever_ends_first() {
    let half = zip_first::<i32, &str, ActorError>(Ended::Left(Ok(1)));
    assert_eq!(zip_second(half, Ended::Right(Ok("b"))), Ok((1, "b")));
    let half = zip_first::<i32, &str, ActorError>(Ended::Right(Ok("b")));
    assert_eq!(zip_second(half, Ended::Left(Ok(1))), Ok((1, "b")));
    let half = zip_first::<i32, &str, ActorError>(Ended::Right(Ok("b")));
    assert_eq!(zip_second(half, Ended::Left(Err(Exit::Interrupt))), Err(Exit::Interrupt));
}

#[test]
fn race_returns_the_first_result_and_awaits_the_loser() {
    let race = race_first::<&str, ActorError>(Ended::Left(Ok("left")));
    assert_eq!(race.answer.unwrap(), "left");
    assert_eq!(race.cancel, Side::Right);
    let race = race_first::<&str, ActorError>(Ended::Right(fail("right")));
    assert_eq!(race.answer, fail("right"));
    assert_eq!(race.cancel, Side::Left);
}

#[test]
fn timeout_returns_interrupt_without_running_the_child_continuation() {
    assert_eq!(deadline_result::<(), ActorError>(None), Err(Exit::Interrupt));
    assert_eq!(deadline_result::<i32, ActorError>(Some(Ok(3))), Ok(3));
    assert_eq!(deadline_result::<i32, ActorError>(Some(fail("x"))), fail("x"));
}

#[test]
fn with_span_records_fail_die_and_interrupt() {
    let event = span_event("mark", &fail::<()>("x"));
    assert_eq!(event.name, "mark");
    assert_eq!(event.outcome, "fail");
    let event = span_event::<(), ActorError>("mark", &Err(Exit::Die("d".into())));
    assert_eq!((event.name.as_str(), event.outcome), ("mark", "die"));
    let event = span_event::<(), ActorError>("mark", &Err(Exit::Interrupt));
    assert_eq!((event.name.as_str(), event.outcome), ("mark", "interrupt"));
    let event = span_event::<u8, ActorError>("model", &Ok(4));
    assert_eq!((event.name.as_str(), event.outcome), ("model", "ok"));
}

#[test]
fn bracket_releases_on_success_failure_and_cancellation() {
    let mut guard = ReleaseOnce::new("resource");
    assert_eq!(guard.release_now(), Some("resource"));
    assert_eq!(guard.release_now(), None);
    assert_eq!(guard.release_now(), None);
}

#[test]
fn config_is_rejected_before_an_actor_exists() {
    let error = HarnessConfig::new(1, 10, 0, 1, Vec::new(), Vec::new()).unwrap_err();
    assert!(matches!(error, ActorError::Config(_)));
}
