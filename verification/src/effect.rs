//! The decisions of the operators on programs: which exits they handle, when they
//! run a program again, which sibling they cancel, and what they record.
//!
//! A program runs at the edge. Each decision here takes what has happened there
//! and says what follows from it.

use std::time::Duration;

use vstd::prelude::*;

use crate::exit::Exit;

verus! {

/// Something that the runtime recorded.
#[derive(Debug, Clone, PartialEq, Eq)]
pub struct TraceEvent {
    pub name: String,
    pub outcome: &'static str,
}

/// What a [`TraceEvent`] says.
pub struct EventModel {
    pub name: Seq<char>,
    pub outcome: Seq<char>,
}

impl View for TraceEvent {
    type V = EventModel;

    open spec fn view(&self) -> EventModel {
        EventModel { name: self.name@, outcome: self.outcome@ }
    }
}

/// What recorded events say.
pub open spec fn told(events: Seq<TraceEvent>) -> Seq<EventModel> {
    events.map_values(|event: TraceEvent| event@)
}

/// The word for how a program ended.
pub open spec fn outcome_of<A, E>(result: Result<A, Exit<E>>) -> Seq<char> {
    match result {
        Ok(_) => "ok"@,
        Err(Exit::Fail(_)) => "fail"@,
        Err(Exit::Die(_)) => "die"@,
        Err(Exit::Interrupt) => "interrupt"@,
    }
}

/// The event of a span around a program that ended so.
pub fn span_event<A, E>(name: &str, result: &Result<A, Exit<E>>) -> (event: TraceEvent)
    ensures
        event@ == (EventModel { name: name@, outcome: outcome_of(*result) }),
{
    let outcome = match result {
        Ok(_) => "ok",
        Err(Exit::Fail(_)) => "fail",
        Err(Exit::Die(_)) => "die",
        Err(Exit::Interrupt) => "interrupt",
    };
    TraceEvent { name: name.to_owned(), outcome }
}

/// A program starts unless its scope was cancelled before.
pub fn started<E>(cancelled: bool) -> (start: Result<(), Exit<E>>)
    ensures
        start == if cancelled {
            Err(Exit::Interrupt)
        } else {
            Ok::<(), Exit<E>>(())
        },
{
    if cancelled {
        Err(Exit::Interrupt)
    } else {
        Ok(())
    }
}

/// Applies a function to a success. Every other exit stays as it is, and the
/// function is not called.
pub fn map_result<A, B, E, F: Fn(A) -> B>(result: Result<A, Exit<E>>, f: F) -> (mapped: Result<
    B,
    Exit<E>,
>)
    requires
        result matches Ok(value) ==> f.requires((value,)),
    ensures
        match result {
            Ok(value) => mapped matches Ok(next) && f.ensures((value,), next),
            Err(exit) => mapped == Err::<B, Exit<E>>(exit),
        },
{
    match result {
        Ok(value) => Ok(f(value)),
        Err(exit) => Err(exit),
    }
}

/// What follows a program: another one, made from a value, or an end.
pub enum Flow<N, R> {
    Next(N),
    End(R),
}

/// Goes on with a success. Every other exit is the end.
pub fn after_success<A, B, E>(result: Result<A, Exit<E>>) -> (flow: Flow<A, Result<B, Exit<E>>>)
    ensures
        flow == match result {
            Ok(value) => Flow::<A, Result<B, Exit<E>>>::Next(value),
            Err(exit) => Flow::End(Err(exit)),
        },
{
    match result {
        Ok(value) => Flow::Next(value),
        Err(exit) => Flow::End(Err(exit)),
    }
}

/// Goes on with an expected failure. Defects, interruption and success are the
/// end.
pub fn after_failure<A, E>(result: Result<A, Exit<E>>) -> (flow: Flow<E, Result<A, Exit<E>>>)
    ensures
        flow == match result {
            Err(Exit::Fail(error)) => Flow::<E, Result<A, Exit<E>>>::Next(error),
            other => Flow::End(other),
        },
{
    match result {
        Err(Exit::Fail(error)) => Flow::Next(error),
        other => Flow::End(other),
    }
}

/// How often a program may run again, and how long to wait before.
#[derive(Debug, Clone, Copy)]
pub struct Schedule {
    pub remaining: u32,
    pub delay: Duration,
}

/// What follows an attempt: the end, or a further attempt on what is left of the
/// schedule.
pub enum Retry<A, E> {
    End(Result<A, Exit<E>>),
    Again(Schedule),
}

/// Whether an attempt calls for another one.
pub open spec fn retries<A, E>(remaining: nat, result: Result<A, Exit<E>>) -> bool {
    remaining > 0 && result matches Err(Exit::Fail(_))
}

/// Decides on another attempt: only an expected failure gets one, and only while
/// the schedule has one left. Each costs one.
pub fn after_attempt<A, E>(schedule: Schedule, result: Result<A, Exit<E>>) -> (retry: Retry<A, E>)
    ensures
        retries(schedule.remaining as nat, result) ==> (retry matches Retry::Again(next)
            && next.remaining == schedule.remaining - 1 && next.delay == schedule.delay),
        !retries(schedule.remaining as nat, result) ==> retry == Retry::End(result),
{
    match result {
        Err(Exit::Fail(_)) if schedule.remaining > 0 => Retry::Again(
            Schedule { remaining: schedule.remaining - 1, delay: schedule.delay },
        ),
        other => Retry::End(other),
    }
}

/// The event that is recorded before a further attempt.
pub fn retry_event() -> (event: TraceEvent)
    ensures
        event@ == (EventModel { name: "retry"@, outcome: "fail"@ }),
{
    TraceEvent { name: "retry".to_owned(), outcome: "fail" }
}

/// A span tells how its program ended: a success, an expected failure, a defect and
/// an interruption each by a word of its own.
pub proof fn law_spans_tell_the_end<A, E>(value: A, error: E, message: String)
    ensures
        outcome_of(Ok::<A, Exit<E>>(value)) == "ok"@,
        outcome_of(Err::<A, Exit<E>>(Exit::Fail(error))) == "fail"@,
        outcome_of(Err::<A, Exit<E>>(Exit::Die(message))) == "die"@,
        outcome_of(Err::<A, Exit<E>>(Exit::Interrupt)) == "interrupt"@,
{
}

/// An expected failure is tried again while the schedule has a retry left; a success,
/// a defect and an interruption never are.
pub proof fn law_what_is_tried_again<A, E>(
    remaining: nat,
    value: A,
    error: E,
    message: String,
)
    ensures
        retries(remaining, Err::<A, Exit<E>>(Exit::Fail(error))) <==> remaining > 0,
        !retries(remaining, Ok::<A, Exit<E>>(value)),
        !retries(remaining, Err::<A, Exit<E>>(Exit::Die(message))),
        !retries(remaining, Err::<A, Exit<E>>(Exit::Interrupt)),
{
}

/// How many attempts are made where the attempts end as listed: up to the first
/// that calls for no other, or all of them.
pub open spec fn attempts<A, E>(remaining: nat, results: Seq<Result<A, Exit<E>>>) -> nat
    decreases results.len(),
{
    if results.len() == 0 {
        0
    } else if retries(remaining, results[0]) {
        1 + attempts((remaining - 1) as nat, results.drop_first())
    } else {
        1
    }
}

/// A schedule allows one attempt more than it has retries.
pub proof fn law_retries_are_bounded<A, E>(remaining: nat, results: Seq<Result<A, Exit<E>>>)
    ensures
        attempts(remaining, results) <= remaining + 1,
        attempts(remaining, results) <= results.len(),
    decreases results.len(),
{
    if results.len() > 0 && retries(remaining, results[0]) {
        law_retries_are_bounded((remaining - 1) as nat, results.drop_first());
    }
}

/// Where every attempt fails as expected, all attempts of the schedule are made.
pub proof fn law_failures_use_the_schedule<A, E>(remaining: nat, results: Seq<Result<A, Exit<E>>>)
    requires
        results.len() == remaining + 1,
        forall|i: int| 0 <= i < results.len() ==> (#[trigger] results[i]) matches Err(Exit::Fail(_)),
    ensures
        attempts(remaining, results) == remaining + 1,
    decreases remaining,
{
    if remaining > 0 {
        let rest = results.drop_first();
        assert forall|i: int| 0 <= i < rest.len() implies (#[trigger] rest[i]) matches Err(
            Exit::Fail(_),
        ) by {
            assert(rest[i] == results[i + 1]);
        }
        assert(results[0] matches Err(Exit::Fail(_)));
        law_failures_use_the_schedule((remaining - 1) as nat, rest);
    }
}

/// The first attempt that does not fail as expected is the last one, while the
/// schedule reaches it: success, defects and interruption are not retried.
pub proof fn law_only_failures_are_retried<A, E>(
    remaining: nat,
    results: Seq<Result<A, Exit<E>>>,
    at: int,
)
    requires
        0 <= at < results.len(),
        at <= remaining,
        forall|i: int| 0 <= i < at ==> (#[trigger] results[i]) matches Err(Exit::Fail(_)),
        !(results[at] matches Err(Exit::Fail(_))),
    ensures
        attempts(remaining, results) == at + 1,
    decreases at,
{
    if at > 0 {
        let rest = results.drop_first();
        assert(results[0] matches Err(Exit::Fail(_)));
        assert forall|i: int| 0 <= i < at - 1 implies (#[trigger] rest[i]) matches Err(
            Exit::Fail(_),
        ) by {
            assert(rest[i] == results[i + 1]);
        }
        assert(rest[at - 1] == results[at]);
        law_only_failures_are_retried((remaining - 1) as nat, rest, at - 1);
    }
}

/// The answer of a program that had a deadline: its own, or interruption where it
/// did not end in time.
pub fn deadline_result<A, E>(ended: Option<Result<A, Exit<E>>>) -> (result: Result<A, Exit<E>>)
    ensures
        result == match ended {
            Some(own) => own,
            None => Err(Exit::Interrupt),
        },
{
    match ended {
        Some(own) => own,
        None => Err(Exit::Interrupt),
    }
}

/// Which of two programs that run together.
#[derive(Debug, Clone, Copy, PartialEq, Eq, Structural)]
pub enum Side {
    Left,
    Right,
}

/// One of two programs that run together has ended.
pub enum Ended<A, B, E> {
    Left(Result<A, Exit<E>>),
    Right(Result<B, Exit<E>>),
}

/// What is kept of the first of two programs while the other one ends: its value,
/// or the exit that stopped both.
pub enum Half<A, B, E> {
    Left(A),
    Right(B),
    Stopped { exit: Exit<E>, cancel: Side },
}

/// What the first end of two programs means: after a success the other one goes
/// on; any other exit cancels it.
pub open spec fn first_half<A, B, E>(ended: Ended<A, B, E>) -> Half<A, B, E> {
    match ended {
        Ended::Left(Ok(value)) => Half::Left(value),
        Ended::Right(Ok(value)) => Half::Right(value),
        Ended::Left(Err(exit)) => Half::Stopped { exit, cancel: Side::Right },
        Ended::Right(Err(exit)) => Half::Stopped { exit, cancel: Side::Left },
    }
}

/// Takes the first end of two programs that are both needed.
pub fn zip_first<A, B, E>(ended: Ended<A, B, E>) -> (half: Half<A, B, E>)
    ensures
        half == first_half(ended),
{
    match ended {
        Ended::Left(Ok(value)) => Half::Left(value),
        Ended::Right(Ok(value)) => Half::Right(value),
        Ended::Left(Err(exit)) => Half::Stopped { exit, cancel: Side::Right },
        Ended::Right(Err(exit)) => Half::Stopped { exit, cancel: Side::Left },
    }
}

/// The end is that of the program that was waited for.
pub open spec fn completes<A, B, E>(half: Half<A, B, E>, ended: Ended<A, B, E>) -> bool {
    match half {
        Half::Left(_) => ended is Right,
        Half::Right(_) => ended is Left,
        Half::Stopped { cancel: Side::Right, .. } => ended is Right,
        Half::Stopped { cancel: Side::Left, .. } => ended is Left,
    }
}

/// The answer of two programs that are both needed: both values, or the exit of
/// the one that ended otherwise first.
pub open spec fn zipped<A, B, E>(half: Half<A, B, E>, ended: Ended<A, B, E>) -> Result<
    (A, B),
    Exit<E>,
> {
    match (half, ended) {
        (Half::Stopped { exit, .. }, _) => Err(exit),
        (_, Ended::Left(Err(exit))) => Err(exit),
        (_, Ended::Right(Err(exit))) => Err(exit),
        (Half::Left(left), Ended::Right(Ok(right))) => Ok((left, right)),
        (Half::Right(right), Ended::Left(Ok(left))) => Ok((left, right)),
        _ => arbitrary(),
    }
}

/// Takes the second end of two programs that are both needed.
pub fn zip_second<A, B, E>(half: Half<A, B, E>, ended: Ended<A, B, E>) -> (answer: Result<
    (A, B),
    Exit<E>,
>)
    requires
        completes(half, ended),
    ensures
        answer == zipped(half, ended),
{
    match half {
        Half::Stopped { exit, cancel: _ } => Err(exit),
        Half::Left(left) => match ended {
            Ended::Right(Ok(right)) => Ok((left, right)),
            Ended::Right(Err(exit)) => Err(exit),
            Ended::Left(_) => {
                assert(false);
                vstd::pervasive::unreached()
            },
        },
        Half::Right(right) => match ended {
            Ended::Left(Ok(left)) => Ok((left, right)),
            Ended::Left(Err(exit)) => Err(exit),
            Ended::Right(_) => {
                assert(false);
                vstd::pervasive::unreached()
            },
        },
    }
}

/// Two programs that both succeed give both values, whichever ends first; and
/// where the first to end does not succeed, its exit is the answer, whatever the
/// cancelled sibling comes to.
pub proof fn law_zip<A, B, E>(first: Ended<A, B, E>, second: Ended<A, B, E>)
    requires
        first is Left != second is Left,
    ensures
        completes(first_half(first), second),
        match (first, second) {
            (Ended::Left(Ok(left)), Ended::Right(Ok(right))) => zipped(first_half(first), second)
                == Ok::<(A, B), Exit<E>>((left, right)),
            (Ended::Right(Ok(right)), Ended::Left(Ok(left))) => zipped(first_half(first), second)
                == Ok::<(A, B), Exit<E>>((left, right)),
            (Ended::Left(Err(exit)), _) => zipped(first_half(first), second) == Err::<
                (A, B),
                Exit<E>,
            >(exit) && first_half(first)->cancel == Side::Right,
            (Ended::Right(Err(exit)), _) => zipped(first_half(first), second) == Err::<
                (A, B),
                Exit<E>,
            >(exit) && first_half(first)->cancel == Side::Left,
            (_, Ended::Left(Err(exit))) => zipped(first_half(first), second) == Err::<
                (A, B),
                Exit<E>,
            >(exit),
            (_, Ended::Right(Err(exit))) => zipped(first_half(first), second) == Err::<
                (A, B),
                Exit<E>,
            >(exit),
            _ => true,
        },
{
}

/// The end of a race: the answer, and the program that is cancelled and awaited.
pub struct Race<A, E> {
    pub answer: Result<A, Exit<E>>,
    pub cancel: Side,
}

/// Ends a race: the first end is the answer, and the other program is cancelled.
pub fn race_first<A, E>(ended: Ended<A, A, E>) -> (race: Race<A, E>)
    ensures
        match ended {
            Ended::Left(result) => race.answer == result && race.cancel == Side::Right,
            Ended::Right(result) => race.answer == result && race.cancel == Side::Left,
        },
{
    match ended {
        Ended::Left(answer) => Race { answer, cancel: Side::Right },
        Ended::Right(answer) => Race { answer, cancel: Side::Left },
    }
}

/// A resource that is handed out for release at most once.
pub struct ReleaseOnce<T> {
    value: Option<T>,
}

impl<T> ReleaseOnce<T> {
    /// The resource, while it is not released.
    pub closed spec fn held(&self) -> Option<T> {
        self.value
    }

    pub fn new(value: T) -> (guard: ReleaseOnce<T>)
        ensures
            guard.held() == Some(value),
    {
        ReleaseOnce { value: Some(value) }
    }

    /// Hands the resource out for release the first time, and nothing after that.
    pub fn release_now(&mut self) -> (released: Option<T>)
        ensures
            released == old(self).held(),
            final(self).held() is None,
    {
        self.value.take()
    }
}

} // verus!
