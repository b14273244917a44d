use a3s_effect::actor::{span_name, Next, Progress};
use a3s_effect::coding::{
    compaction_fact, completion_exit, denied_fact, model_fact, tool_fact,
};
use a3s_effect::effect::{after_attempt, retry_event, span_event, Retry};
use a3s_effect::fact::fact_line;
use a3s_effect::log_file::{log_file_name, parse_log, plan_append};
use a3s_effect::{
    answer_fact, coding_actor, component, confirm_fact, cut_log, message_fact, parse_fact_json,
    Actor, ActorError, CodingPhase, CodingTask, CodingView, CompletionRequest, ErasedComponent,
    Exit, Fact, HarnessConfig, Json, JsonObject, LogStore, MemoryLog, ModelDecision, NewFact,
    Schedule, Settlement, ToolCall, ToolSpec, TraceEvent, Transition,
};
use std::time::Duration;

fn object(pairs: Vec<(&str, Json)>) -> Json {
    let mut members = JsonObject::new();
    for (name, value) in pairs {
        members.insert(name.to_string(), value);
    }
    Json::Object(members)
}

fn text(text: &str) -> ModelDecision {
    ModelDecision::Text {
        text: text.to_string(),
    }
}

fn tool(id: &str, name: &str, confirm: bool) -> ModelDecision {
    ModelDecision::Tool {
        call: ToolCall {
            id: id.to_string(),
            name: name.to_string(),
            args: object(vec![("path", Json::Text("src/lib.rs".to_string()))]),
            needs_confirmation: confirm,
            text: None,
            reasoning: None,
        },
    }
}

/// Services that follow a script and count their calls.
struct Services {
    decisions: Vec<Result<ModelDecision, ActorError>>,
    fail_first_tool: bool,
    model_calls: usize,
    tool_calls: usize,
    compact_calls: usize,
    requests: Vec<CompletionRequest>,
}

impl Services {
    fn new(decisions: Vec<Result<ModelDecision, ActorError>>, fail_first_tool: bool) -> Services {
        Services {
            decisions: decisions.into_iter().rev().collect(),
            fail_first_tool,
            model_calls: 0,
            tool_calls: 0,
            compact_calls: 0,
            requests: Vec::new(),
        }
    }

    fn complete(&mut self, request: &CompletionRequest) -> Result<ModelDecision, ActorError> {
        self.model_calls += 1;
        self.requests.push(request.clone());
        self.decisions.pop().unwrap_or(Ok(text("empty")))
    }

    fn run(&mut self, call: &ToolCall) -> Result<Json, ActorError> {
        let n = self.tool_calls;
        self.tool_calls += 1;
        if self.fail_first_tool && n == 0 {
            Err(ActorError::Handler {
                key: call.name.clone(),
                message: "down".into(),
            })
        } else {
            Ok(Json::Text(format!("ran {}", call.name)))
        }
    }

    fn compact(&mut self, messages: &[String]) -> Result<String, ActorError> {
        self.compact_calls += 1;
        Ok(format!("summary:{}", messages.join(" ")))
    }

    fn perform(
        &mut self,
        task: &CodingTask,
        trace: &mut Vec<TraceEvent>,
    ) -> Result<Vec<NewFact>, Exit<ActorError>> {
        match task {
            CodingTask::Compact { messages, turn } => {
                let summary = self.compact(messages)?;
                Ok(vec![compaction_fact(*turn, &summary)])
            }
            CodingTask::Complete { request, retries, turn, cycle } => {
                let mut schedule = Schedule {
                    remaining: *retries,
                    delay: Duration::ZERO,
                };
                loop {
                    let result = match self.complete(request) {
                        Ok(decision) => Ok(vec![model_fact(*turn, *cycle, &decision)]),
                        Err(error) => Err(completion_exit(error)),
                    };
                    match after_attempt(schedule, result) {
                        Retry::End(result) => return result,
                        Retry::Again(next) => {
                            schedule = next;
                            trace.push(retry_event());
                        }
                    }
                }
            }
            CodingTask::RunTool { call } => {
                let output = self.run(call)?;
                Ok(vec![tool_fact(call, &output)])
            }
            CodingTask::Deny { tool_call_id } => Ok(vec![denied_fact(tool_call_id)]),
        }
    }
}

fn resume(
    actor: &Actor<CodingTask, CodingView>,
    log: &mut dyn LogStore,
    services: &mut Services,
    thread_id: &str,
    limit: u32,
) -> Result<Settlement<CodingView>, Exit<ActorError>> {
    let mut progress = Progress::new(limit);
    loop {
        let facts = log.read(thread_id)?;
        let (kept, transition) = match progress.decide(actor, facts)? {
            Next::Settled(settlement) => return Ok(settlement),
            Next::Perform { progress, transition } => (progress, transition),
        };
        progress = kept;
        let mut trace = Vec::new();
        let result = services.perform(&transition.run, &mut trace);
        trace.push(span_event(&span_name(&transition.key), &result));
        let produced = progress.performed(result, trace)?;
        let appended = log.append(thread_id, &produced, Some(&transition.key));
        progress.appended(appended)?;
    }
}

fn ingest(
    actor: &Actor<CodingTask, CodingView>,
    log: &mut dyn LogStore,
    services: &mut Services,
    thread_id: &str,
    fact: NewFact,
    limit: u32,
) -> Result<Settlement<CodingView>, Exit<ActorError>> {
    log.append(thread_id, &[fact], None)?;
    resume(actor, log, services, thread_id, limit)
}

struct Harness {
    services: Services,
    log: MemoryLog,
    actor: Actor<CodingTask, CodingView>,
    limit: u32,
}

impl Harness {
    fn resume(&mut self) -> Result<Settlement<CodingView>, Exit<ActorError>> {
        resume(&self.actor, &mut self.log, &mut self.services, "thread-1", self.limit)
    }

    fn ingest(&mut self, fact: NewFact) -> Result<Settlement<CodingView>, Exit<ActorError>> {
        ingest(&self.actor, &mut self.log, &mut self.services, "thread-1", fact, self.limit)
    }

    fn send(&mut self, key: &str, text: &str) -> Settlement<CodingView> {
        self.ingest(message_fact(key, text)).expect("ingest")
    }
}

fn harness(
    decisions: Vec<Result<ModelDecision, ActorError>>,
    budget: u32,
    compact_after: usize,
    attempts: u32,
    fail_first_tool: bool,
) -> Harness {
    let config = HarnessConfig::new(
        budget,
        compact_after,
        16,
        attempts,
        vec!["You are a coding harness.".into()],
        vec![ToolSpec {
            name: "read".into(),
            description: "Read a file".into(),
        }],
    )
    .expect("config");
    let limit = config.step_limit();
    Harness {
        services: Services::new(decisions, fail_first_tool),
        log: MemoryLog::new(),
        actor: coding_actor(config),
        limit,
    }
}

#[test]
fn a_text_turn_runs_once_and_resume_does_not_call_the_model_again() {
    let mut harness = harness(vec![Ok(text("hello"))], 2, 10_000, 1, false);
    let settled = harness.send("m1", "hi");
    assert_eq!(settled.view.assistant.as_deref(), Some("hello"));
    assert_eq!(settled.view.phase, CodingPhase::Done);
    assert_eq!(harness.services.model_calls, 1);

    let again = harness.resume().expect("resume");
    assert_eq!(again.steps, 0);
    assert_eq!(harness.services.model_calls, 1);
    assert_eq!(cut_log(&again.log).seq, settled.cut.seq);
}

#[test]
fn confirmation_parks_until_a_fact_and_denial_does_not_run_the_tool() {
    let mut harness = harness(vec![Ok(tool("t1", "read", true))], 2, 10_000, 1, false);
    let parked = harness.send("m1", "read it");
    assert_eq!(parked.view.phase, CodingPhase::Confirm);
    assert_eq!(
        parked
            .view
            .pending_confirmation
            .as_ref()
            .map(|item| item.tool_call_id.as_str()),
        Some("t1")
    );
    assert_eq!(harness.services.tool_calls, 0);

    let denied = harness.ingest(confirm_fact("c1", "t1", false)).expect("deny");
    assert_eq!(denied.view.assistant.as_deref(), Some("denied"));
    assert_eq!(harness.services.tool_calls, 0);
}

#[test]
fn an_approved_tool_runs_once_across_resume() {
    let mut harness = harness(
        vec![Ok(tool("t1", "read", true)), Ok(text("done"))],
        2,
        10_000,
        1,
        false,
    );
    harness.send("m1", "read it");
    let settled = harness.ingest(confirm_fact("c1", "t1", true)).expect("approve");
    assert_eq!(settled.view.assistant.as_deref(), Some("done"));
    assert_eq!(harness.services.tool_calls, 1);
    harness.resume().expect("resume");
    assert_eq!(harness.services.tool_calls, 1);
}

#[test]
fn a_failed_tool_is_not_recorded_and_resume_runs_it_once() {
    let mut harness = harness(
        vec![Ok(tool("t1", "read", false)), Ok(text("after"))],
        2,
        10_000,
        1,
        true,
    );
    let failed = harness.ingest(message_fact("m1", "go"));
    assert!(matches!(
        failed,
        Err(Exit::Fail(ActorError::Handler { .. }))
    ));
    assert_eq!(harness.services.tool_calls, 1);
    assert!(harness
        .log
        .read("thread-1")
        .unwrap()
        .iter()
        .all(|fact| fact.kind != "tool.result"));

    let settled = harness.resume().expect("resume");
    assert_eq!(settled.view.assistant.as_deref(), Some("after"));
    assert_eq!(harness.services.tool_calls, 2);
    assert_eq!(
        settled
            .log
            .iter()
            .filter(|fact| fact.kind == "tool.result")
            .count(),
        1
    );

    harness.resume().expect("second resume");
    assert_eq!(harness.services.tool_calls, 2);
}

#[test]
fn budget_stops_a_second_tool_without_running_it() {
    let mut harness = harness(
        vec![Ok(tool("t1", "read", false)), Ok(tool("t2", "read", false))],
        1,
        10_000,
        1,
        false,
    );
    let settled = harness.send("m1", "edit");
    assert_eq!(settled.view.assistant.as_deref(), Some("budget"));
    assert_eq!(harness.services.tool_calls, 1);
    assert!(settled.log.iter().any(|fact| fact.kind == "budget.denied"));
}

#[test]
fn compaction_runs_once_before_inference() {
    let mut harness = harness(vec![Ok(text("short"))], 2, 5, 1, false);
    let settled = harness.send("m1", "hello");
    assert_eq!(settled.view.assistant.as_deref(), Some("short"));
    assert_eq!(harness.services.compact_calls, 1);
    assert!(settled
        .log
        .iter()
        .any(|fact| fact.kind == "compaction.done"));
    harness.resume().expect("resume");
    assert_eq!(harness.services.compact_calls, 1);
}

#[test]
fn a_question_stays_parked_with_allow_free_text_until_an_answer_fact() {
    let mut harness = harness(
        vec![
            Ok(ModelDecision::Question {
                question_id: "q1".into(),
                question: "Which module?".into(),
                allow_free_text: true,
                options: vec!["scheduler".into()],
            }),
            Ok(text("scheduler")),
        ],
        2,
        10_000,
        1,
        false,
    );
    let parked = harness.send("m1", "look");
    assert_eq!(parked.view.phase, CodingPhase::Question);
    let question = parked.view.pending_question.expect("question");
    assert!(question.allow_free_text);
    assert_eq!(question.question_id, "q1");
    assert_eq!(harness.services.model_calls, 1);

    let still = harness.resume().expect("parked resume");
    assert_eq!(still.steps, 0);
    assert_eq!(harness.services.model_calls, 1);

    let settled = harness
        .ingest(answer_fact("a1", "the scheduler"))
        .expect("answer");
    assert_eq!(settled.view.assistant.as_deref(), Some("scheduler"));
    assert_eq!(harness.services.model_calls, 2);
}

#[test]
fn replaying_an_ingress_key_does_not_run_the_model_twice() {
    let mut harness = harness(vec![Ok(text("once"))], 2, 10_000, 1, false);
    harness.send("m1", "hi");
    harness.send("m1", "hi");
    assert_eq!(harness.services.model_calls, 1);
    assert_eq!(
        harness
            .log
            .read("thread-1")
            .unwrap()
            .iter()
            .filter(|fact| fact.kind == "user.message")
            .count(),
        1
    );
}

#[test]
fn duplicate_transition_keys_fail_before_any_effect_runs() {
    let side = |key: &'static str| -> ErasedComponent<&'static str, ()> {
        component(
            || (),
            |state: (), _fact: &Fact| state,
            move |_state: &()| {
                (
                    (),
                    vec![Transition {
                        key: "same".into(),
                        run: key,
                    }],
                )
            },
        )
    };
    let actor = Actor::new(
        "dup",
        vec![side("tick-left"), side("tick-right")],
        |_views: Vec<()>| (),
    );
    let mut log = MemoryLog::new();
    log.append("thread-1", &[message_fact("m1", "go")], None).unwrap();
    let facts = log.read("thread-1").unwrap();
    let error = Progress::new(4).decide(&actor, facts);
    assert!(matches!(
        error,
        Err(Exit::Fail(ActorError::DuplicateTransition { .. }))
    ));
}

#[test]
fn a_corrupt_log_line_is_a_schema_error() {
    let error = parse_fact_json("{\"seq\":1,\"type\":\"user.message\"}").unwrap_err();
    assert!(matches!(error, ActorError::Schema(_)));
    let fact = parse_fact_json(
        r#"{"seq":1,"type":"user.message","key":"m1","cause":null,"payload":{"text":"hi"}}"#,
    )
    .unwrap();
    assert_eq!(fact.kind, "user.message");
    assert_eq!(fact.key, "m1");
}

#[test]
fn infer_fail_invokes_completion_model_attempts_times() {
    for attempts in [2_u32, 1] {
        let mut harness = harness(
            vec![Err(ActorError::Config("m".into())); attempts as usize],
            2,
            10_000,
            attempts,
            false,
        );
        let error = harness.ingest(message_fact("m1", "hi"));
        assert!(matches!(error, Err(Exit::Fail(ActorError::Config(message))) if message == "m"));
        assert_eq!(harness.services.model_calls, attempts as usize);
        assert_eq!(harness.services.tool_calls, 0);
        let stored = harness.log.read("thread-1").unwrap();
        assert!(stored.iter().any(|fact| fact.kind == "user.message"));
        assert!(stored.iter().all(|fact| fact.kind != "model.turn"));
    }
}

#[test]
fn a_defect_of_the_model_is_not_retried() {
    let mut harness = harness(
        vec![Err(ActorError::Defect("m".into())), Ok(text("never"))],
        2,
        10_000,
        3,
        false,
    );
    let error = harness.ingest(message_fact("m1", "hi"));
    assert!(matches!(error, Err(Exit::Die(message)) if message == "m"));
    assert_eq!(harness.services.model_calls, 1);
}

#[test]
fn a_model_turn_that_is_not_a_decision_settles_done() {
    let mut harness = harness(vec![], 2, 10_000, 1, false);
    harness
        .log
        .append("thread-1", &[message_fact("m1", "hi")], None)
        .unwrap();
    harness
        .log
        .append(
            "thread-1",
            &[NewFact {
                kind: "model.turn".into(),
                key: "model:1:0".into(),
                payload: object(vec![("kind", Json::Text("nope".into()))]),
            }],
            None,
        )
        .unwrap();
    let before = harness.log.read("thread-1").unwrap();
    let line = fact_line(before.last().unwrap());
    parse_fact_json(&line).expect("model.turn is a valid fact line");
    let settled = harness.resume().expect("resume");
    assert_eq!(settled.view.phase, CodingPhase::Done);
    assert!(settled.view.schema_error.is_some());
    assert_eq!(harness.services.model_calls, 0);
    assert_eq!(harness.services.tool_calls, 0);
    assert_eq!(settled.log.len(), before.len());
}

#[test]
fn tool_round_cap_completes_once_with_an_empty_tool_list() {
    let config = HarnessConfig::new(
        4,
        10_000,
        8,
        1,
        vec!["system".into()],
        vec![ToolSpec {
            name: "read".into(),
            description: "Read a file".into(),
        }],
    )
    .unwrap()
    .with_tool_round_cap(0);
    let actor = coding_actor(config);
    let mut services = Services::new(vec![Ok(text("done"))], false);
    let mut log = MemoryLog::new();
    let settled = ingest(
        &actor,
        &mut log,
        &mut services,
        "thread-1",
        message_fact("m1", "hello"),
        8,
    )
    .expect("ingest");
    assert_eq!(settled.view.assistant.as_deref(), Some("done"));
    assert_eq!(services.model_calls, 1);
    let tool_counts: Vec<usize> = services.requests.iter().map(|r| r.tools.len()).collect();
    assert_eq!(tool_counts.as_slice(), &[0]);
    let messages: Vec<Vec<String>> =
        services.requests.iter().map(|r| r.messages.clone()).collect();
    assert_eq!(messages, vec![vec!["user\nhello".to_string()]]);
    assert!(messages
        .iter()
        .flatten()
        .all(|line| !line.contains("TOOL_BUDGET_FINALIZATION")));
}

#[test]
fn the_cap_hides_tools_only_once_it_is_reached() {
    let config = HarnessConfig::new(
        4,
        10_000,
        16,
        1,
        Vec::new(),
        vec![ToolSpec {
            name: "read".into(),
            description: "r".into(),
        }],
    )
    .unwrap()
    .with_tool_round_cap(1);
    let actor = coding_actor(config);
    let mut services = Services::new(vec![Ok(tool("t1", "read", false)), Ok(text("done"))], false);
    let mut log = MemoryLog::new();
    let settled = ingest(&actor, &mut log, &mut services, "t", message_fact("m1", "go"), 16)
        .expect("ingest");
    let tool_counts: Vec<usize> = services.requests.iter().map(|r| r.tools.len()).collect();
    assert_eq!(tool_counts, vec![1, 0]);
    assert_eq!(settled.steps, 3);
    assert_eq!(services.requests[1].messages, vec!["user\ngo", "tool\nran read"]);
    let keys: Vec<&str> = settled.log.iter().map(|fact| fact.key.as_str()).collect();
    assert_eq!(keys, vec!["m1", "model:1:0", "tool-result:t1", "model:1:1"]);
    let causes: Vec<Option<&str>> = settled.log.iter().map(|fact| fact.cause.as_deref()).collect();
    assert_eq!(
        causes,
        vec![None, Some("infer:1:0"), Some("tool:t1"), Some("infer:1:1")]
    );
    let spans: Vec<&str> = settled.trace.iter().map(|event| event.name.as_str()).collect();
    assert_eq!(
        spans,
        vec!["transition:infer:1:0", "transition:tool:t1", "transition:infer:1:1"]
    );
}

const LIMIT: u32 = 8;

/// A log whose threads are texts, as files hold them.
struct TextLog {
    text: String,
}

impl LogStore for TextLog {
    fn read(&self, thread_id: &str) -> Result<Vec<Fact>, ActorError> {
        assert_eq!(log_file_name(thread_id), format!("{thread_id}.jsonl"));
        parse_log(&self.text)
    }

    fn append(
        &mut self,
        _thread_id: &str,
        facts: &[NewFact],
        cause: Option<&str>,
    ) -> Result<Vec<Fact>, ActorError> {
        let current = parse_log(&self.text)?;
        let plan = plan_append(&current, facts, cause)?;
        self.text.push_str(&plan.added);
        Ok(plan.next)
    }
}

struct Session {
    file: String,
    services: Services,
    actor: Actor<CodingTask, CodingView>,
}

impl Session {
    fn open(decisions: Vec<Result<ModelDecision, ActorError>>, fail_first: bool) -> Session {
        let config = HarnessConfig::new(2, 10_000, LIMIT, 1, Vec::new(), Vec::new()).unwrap();
        Session {
            file: String::new(),
            services: Services::new(decisions, fail_first),
            actor: coding_actor(config),
        }
    }

    /// Opens the file anew, resumes, and keeps what was written.
    fn resume(&mut self) -> Result<Settlement<CodingView>, Exit<ActorError>> {
        let mut log = TextLog { text: self.file.clone() };
        let settled = resume(&self.actor, &mut log, &mut self.services, "thread-1", LIMIT);
        self.file = log.text;
        settled
    }

    /// Opens the file anew, ingests, and keeps what was written.
    fn ingest(&mut self, fact: NewFact) -> Result<Settlement<CodingView>, Exit<ActorError>> {
        let mut log = TextLog { text: self.file.clone() };
        let settled = ingest(&self.actor, &mut log, &mut self.services, "thread-1", fact, LIMIT);
        self.file = log.text;
        settled
    }

    fn stored(&self) -> Vec<Fact> {
        parse_log(&self.file).unwrap()
    }
}

#[test]
fn finished_text_turn_does_not_call_the_model_after_reopen() {
    let mut session = Session::open(vec![Ok(text("hello"))], false);
    let settled = session.ingest(message_fact("m1", "hi")).expect("ingest");
    assert_eq!(settled.view.phase, CodingPhase::Done);
    assert_eq!(session.services.model_calls, 1);
    let assistant = settled.view.assistant.clone();

    let again = session.resume().expect("resume");
    assert_eq!(again.steps, 0);
    assert_eq!(again.view.phase, CodingPhase::Done);
    assert_eq!(again.view.assistant, assistant);
    assert_eq!(session.services.model_calls, 1);
    assert_eq!(session.services.tool_calls, 0);
    assert_eq!(session.services.compact_calls, 0);
}

#[test]
fn parked_confirmation_survives_reopen_and_then_runs_once() {
    let mut session = Session::open(
        vec![Ok(tool("t1", "read", true)), Ok(text("done"))],
        false,
    );
    let parked = session.ingest(message_fact("m1", "read it")).expect("park");
    assert_eq!(parked.view.phase, CodingPhase::Confirm);
    let id = parked
        .view
        .pending_confirmation
        .expect("confirmation")
        .tool_call_id;

    let still = session.resume().expect("parked resume");
    assert_eq!(still.steps, 0);
    assert_eq!(still.view.phase, CodingPhase::Confirm);
    assert_eq!(
        still
            .view
            .pending_confirmation
            .expect("confirmation")
            .tool_call_id,
        id
    );
    assert_eq!(session.services.model_calls, 1);
    assert_eq!(session.services.tool_calls, 0);
    assert_eq!(session.services.compact_calls, 0);

    let settled = session.ingest(confirm_fact("c1", &id, true)).expect("confirm");
    assert_eq!(session.services.tool_calls, 1);
    assert_eq!(session.services.model_calls, 2);
    assert_eq!(settled.view.assistant.as_deref(), Some("done"));
}

#[test]
fn parked_question_keeps_allow_free_text_across_reopen() {
    let mut session = Session::open(
        vec![
            Ok(ModelDecision::Question {
                question_id: "q1".into(),
                question: "Which module?".into(),
                allow_free_text: true,
                options: Vec::new(),
            }),
            Ok(text("scheduler")),
        ],
        false,
    );
    let parked = session.ingest(message_fact("m1", "look")).expect("park");
    assert_eq!(parked.view.phase, CodingPhase::Question);
    assert!(
        parked
            .view
            .pending_question
            .expect("question")
            .allow_free_text
    );

    let still = session.resume().expect("parked resume");
    assert_eq!(still.steps, 0);
    assert_eq!(still.view.phase, CodingPhase::Question);
    assert!(
        still
            .view
            .pending_question
            .expect("question")
            .allow_free_text
    );
    assert_eq!(session.services.model_calls, 1);
    assert_eq!(session.services.tool_calls, 0);
    assert_eq!(session.services.compact_calls, 0);

    let settled = session.ingest(answer_fact("a1", "the scheduler")).expect("answer");
    assert_eq!(session.services.model_calls, 2);
    assert_eq!(session.services.tool_calls, 0);
    assert_eq!(settled.view.assistant.as_deref(), Some("scheduler"));
}

#[test]
fn failed_tool_without_a_result_runs_once_after_reopen() {
    let mut session = Session::open(
        vec![Ok(tool("t1", "read", false)), Ok(text("after"))],
        true,
    );
    let failed = session.ingest(message_fact("m1", "go"));
    assert!(matches!(
        failed,
        Err(Exit::Fail(ActorError::Handler { .. }))
    ));
    let stored = session.stored();
    assert!(stored.iter().any(|fact| fact.kind == "model.turn"));
    assert!(stored.iter().all(|fact| fact.kind != "tool.result"));
    assert_eq!(session.services.tool_calls, 1);

    let settled = session.resume().expect("retry tool");
    assert_eq!(session.services.tool_calls, 2);
    assert_eq!(session.services.model_calls, 2);
    assert_eq!(
        settled
            .log
            .iter()
            .filter(|fact| fact.kind == "tool.result")
            .count(),
        1
    );

    let quiet = session.resume().expect("third");
    assert_eq!(quiet.steps, 0);
    assert_eq!(session.services.tool_calls, 2);
    assert_eq!(session.services.model_calls, 2);
}

#[test]
fn duplicate_fact_after_a_finished_turn_does_not_call_the_model() {
    let mut session = Session::open(vec![Ok(text("hello"))], false);
    let settled = session.ingest(message_fact("m1", "hi")).expect("turn");
    assert_eq!(settled.view.phase, CodingPhase::Done);
    assert_eq!(session.services.model_calls, 1);
    let bytes = session.file.clone();
    let error = session.ingest(message_fact("m1", "other"));
    assert!(matches!(
        error,
        Err(Exit::Fail(ActorError::DuplicateFact { key })) if key == "m1"
    ));
    assert_eq!(session.services.model_calls, 1);
    assert_eq!(session.file, bytes);

    let stored = session.stored();
    let message = stored.iter().find(|fact| fact.key == "m1").unwrap();
    assert_eq!(
        message.payload,
        object(vec![("text", Json::Text("hi".to_string()))])
    );
    let again = session.resume().expect("resume");
    assert_eq!(again.steps, 0);
    assert_eq!(again.view.phase, CodingPhase::Done);
    assert_eq!(session.services.model_calls, 1);
    assert_eq!(session.file, bytes);
}

#[test]
fn a_corrupt_jsonl_line_makes_resume_return_schema_without_appending() {
    let mut session = Session::open(vec![], false);
    let mut log = TextLog { text: String::new() };
    log.append("thread-1", &[message_fact("m1", "hi")], None).unwrap();
    session.file = log.text + "{\n";
    let bytes = session.file.clone();
    let error = session.resume();
    assert!(matches!(error, Err(Exit::Fail(ActorError::Schema(_)))));
    assert_eq!(session.file, bytes);
    assert_eq!(session.services.model_calls, 0);
}

#[test]
fn file_log_recovery_runs_a_recorded_tool_request_once() {
    let mut session = Session::open(vec![Ok(text("after"))], false);
    let mut log = TextLog { text: String::new() };
    let mut request = model_fact(1, 0, &tool("t1", "read", false));
    request.key = "model:1:0".into();
    log.append("recover", &[message_fact("m1", "go"), request], None).unwrap();
    session.file = log.text;

    let settled = session.resume().expect("resume");
    assert_eq!(session.services.tool_calls, 1);
    assert_eq!(settled.view.assistant.as_deref(), Some("after"));

    session.resume().expect("second");
    assert_eq!(session.services.tool_calls, 1);
}
