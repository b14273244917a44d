//! The scheduler of the coding harness, projected from the log.
//!
//! A parked question or a tool confirmation is a phase of the fold, not something
//! that a process holds. Answering or confirming appends a fact, and the tool or
//! model call that follows is derived from that fact.

use vstd::prelude::*;

use crate::actor::{folded, Transition};
use crate::coding::{copy_tools, empty_view, opt_view, tool_models, CodingPhase, CodingView,
    CodingViewModel, CompletionRequest, ConfigModel, HarnessConfig, PendingConfirmation,
    PendingConfirmationModel, PendingQuestion, PendingQuestionModel, RequestModel};
use crate::fact::{Fact, FactModel};
use crate::json::{Json, JsonModel};
use crate::payload::{confirmation_payload, decision_payload, read_confirmation, read_decision,
    read_summary_payload, read_text_payload, read_tool_result, summary_payload, text_payload,
    tool_result_payload, DecisionModel, ModelDecision, ToolCall, ToolCallModel};
use crate::text::{byte_len, concat2, concat3, copy_opt, copy_texts, decimal, decimal_text,
    same_text, size_of_text, text_opt, texts};

verus! {

/// The state of the scheduler.
#[derive(Debug)]
pub struct SchedulerState {
    pub turn: u64,
    pub cycle: u64,
    pub phase: CodingPhase,
    pub messages: Vec<String>,
    pub summary: String,
    pub tool_runs: u32,
    pub compacted_turn: u64,
    pub assistant: Option<String>,
    pub pending_call: Option<ToolCall>,
    pub pending_question: Option<PendingQuestion>,
    pub schema_error: Option<String>,
}

/// What a [`SchedulerState`] says.
pub struct StateModel {
    pub turn: u64,
    pub cycle: u64,
    pub phase: CodingPhase,
    pub messages: Seq<Seq<char>>,
    pub summary: Seq<char>,
    pub tool_runs: u32,
    pub compacted_turn: u64,
    pub assistant: Option<Seq<char>>,
    pub pending_call: Option<ToolCallModel>,
    pub pending_question: Option<PendingQuestionModel>,
    pub schema_error: Option<Seq<char>>,
}

impl View for SchedulerState {
    type V = StateModel;

    open spec fn view(&self) -> StateModel {
        StateModel {
            turn: self.turn,
            cycle: self.cycle,
            phase: self.phase,
            messages: texts(self.messages@),
            summary: self.summary@,
            tool_runs: self.tool_runs,
            compacted_turn: self.compacted_turn,
            assistant: text_opt(self.assistant),
            pending_call: opt_view(self.pending_call),
            pending_question: opt_view(self.pending_question),
            schema_error: text_opt(self.schema_error),
        }
    }
}

/// The state before any fact.
pub open spec fn first_state() -> StateModel {
    StateModel {
        turn: 0,
        cycle: 0,
        phase: CodingPhase::Idle,
        messages: Seq::empty(),
        summary: Seq::empty(),
        tool_runs: 0,
        compacted_turn: 0,
        assistant: None,
        pending_call: None,
        pending_question: None,
        schema_error: None,
    }
}

/// The size of texts in bytes.
pub open spec fn sizes(items: Seq<Seq<char>>) -> nat
    decreases items.len(),
{
    if items.len() == 0 {
        0
    } else {
        sizes(items.drop_last()) + byte_len(items.last())
    }
}

/// The size of a conversation in bytes: its summary and its messages.
pub open spec fn state_size(state: StateModel) -> nat {
    byte_len(state.summary) + sizes(state.messages)
}

/// A number as far as a machine word counts.
pub open spec fn capped(n: nat) -> nat {
    if n <= usize::MAX {
        n
    } else {
        usize::MAX as nat
    }
}

impl SchedulerState {
    /// The state before any fact.
    pub fn new() -> (state: SchedulerState)
        ensures
            state@ == first_state(),
    {
        let state = SchedulerState {
            turn: 0,
            cycle: 0,
            phase: CodingPhase::Idle,
            messages: Vec::new(),
            summary: String::new(),
            tool_runs: 0,
            compacted_turn: 0,
            assistant: None,
            pending_call: None,
            pending_question: None,
            schema_error: None,
        };
        assert(texts(state.messages@) =~= Seq::empty());
        assert(state.summary@ =~= Seq::empty());
        state
    }

    /// The size of the conversation in bytes, as far as it can be counted.
    pub fn size(&self) -> (size: usize)
        ensures
            size == capped(state_size(self@)),
    {
        let ghost all = texts(self.messages@);
        let mut size: usize = size_of_text(self.summary.as_str());
        let mut i: usize = 0;
        assert(all.take(0) =~= Seq::empty());
        while i < self.messages.len()
            invariant
                i <= self.messages@.len(),
                all == texts(self.messages@),
                size == capped(byte_len(self.summary@) + sizes(all.take(i as int))),
            decreases self.messages.len() - i,
        {
            proof {
                assert(all.take(i + 1).drop_last() =~= all.take(i as int));
                assert(all.take(i + 1).last() == self.messages@[i as int]@);
            }
            size = size.saturating_add(size_of_text(self.messages[i].as_str()));
            i += 1;
        }
        assert(all.take(all.len() as int) =~= all);
        size
    }
}

/// A conversation that has grown to the threshold is compacted, once in a turn.
pub open spec fn needs_compaction(state: StateModel, config: ConfigModel) -> bool {
    state_size(state) >= config.compact_after_chars && state.compacted_turn != state.turn
}

/// The state behind an input: the conversation is compacted or the model is asked.
pub open spec fn input_taken(state: StateModel, config: ConfigModel) -> StateModel {
    StateModel {
        phase: if needs_compaction(state, config) {
            CodingPhase::Compact
        } else {
            CodingPhase::Infer
        },
        assistant: None,
        pending_call: None,
        pending_question: None,
        ..state
    }
}

/// Goes on behind an input.
pub fn after_input(state: SchedulerState, config: &HarnessConfig) -> (next: SchedulerState)
    ensures
        next@ == input_taken(state@, config@),
{
    let needs_compact = state.size() >= config.compact_after_chars() && state.compacted_turn
        != state.turn;
    SchedulerState {
        phase: if needs_compact {
            CodingPhase::Compact
        } else {
            CodingPhase::Infer
        },
        assistant: None,
        pending_call: None,
        pending_question: None,
        ..state
    }
}

/// The state behind a decision of the model: words end the turn, a question parks
/// it, and a tool call is denied over the budget, parked where it has to be
/// confirmed, and else enabled. A payload that spells no decision ends the turn
/// with a report.
pub open spec fn decision_taken(
    state: StateModel,
    config: ConfigModel,
    payload: JsonModel,
) -> StateModel {
    match decision_payload(payload) {
        Err(report) => StateModel {
            phase: CodingPhase::Done,
            schema_error: Some(report),
            pending_call: None,
            ..state
        },
        Ok(DecisionModel::Text { text }) => StateModel {
            phase: CodingPhase::Done,
            assistant: Some(text),
            pending_call: None,
            ..state
        },
        Ok(DecisionModel::Question { question_id, question, allow_free_text, options }) => {
            StateModel {
                phase: CodingPhase::Question,
                pending_question: Some(
                    PendingQuestionModel { question_id, question, allow_free_text, options },
                ),
                pending_call: None,
                ..state
            }
        },
        Ok(DecisionModel::Tool { call }) => StateModel {
            phase: if state.tool_runs >= config.budget {
                CodingPhase::Deny
            } else if call.needs_confirmation {
                CodingPhase::Confirm
            } else {
                CodingPhase::Tool
            },
            pending_call: Some(call),
            ..state
        },
    }
}

/// Goes on behind a decision of the model.
pub fn on_model(state: SchedulerState, config: &HarnessConfig, payload: &Json) -> (next:
    SchedulerState)
    ensures
        next@ == decision_taken(state@, config@, payload@),
{
    match read_decision(payload) {
        Err(report) => SchedulerState {
            phase: CodingPhase::Done,
            schema_error: Some(report),
            pending_call: None,
            ..state
        },
        Ok(ModelDecision::Text { text }) => SchedulerState {
            phase: CodingPhase::Done,
            assistant: Some(text),
            pending_call: None,
            ..state
        },
        Ok(ModelDecision::Question { question_id, question, allow_free_text, options }) => {
            SchedulerState {
                phase: CodingPhase::Question,
                pending_question: Some(
                    PendingQuestion { question_id, question, allow_free_text, options },
                ),
                pending_call: None,
                ..state
            }
        },
        Ok(ModelDecision::Tool { call }) => {
            let phase = if state.tool_runs >= config.budget() {
                CodingPhase::Deny
            } else if call.needs_confirmation {
                CodingPhase::Confirm
            } else {
                CodingPhase::Tool
            };
            SchedulerState { phase, pending_call: Some(call), ..state }
        },
    }
}

/// A state that a payload it cannot read has ended.
pub open spec fn misread(state: StateModel, report: Seq<char>) -> StateModel {
    StateModel { phase: CodingPhase::Done, schema_error: Some(report), ..state }
}

/// The state behind a fact.
pub open spec fn stepped(state: StateModel, fact: FactModel, config: ConfigModel) -> StateModel {
    if fact.kind == "user.message"@ {
        match text_payload(fact.payload) {
            Ok(text) => input_taken(
                StateModel {
                    turn: (state.turn + 1) as u64,
                    cycle: 0,
                    messages: state.messages.push("user\n"@ + text),
                    tool_runs: 0,
                    ..state
                },
                config,
            ),
            Err(report) => misread(state, report),
        }
    } else if fact.kind == "compaction.done"@ {
        match summary_payload(fact.payload) {
            Ok(summary) => StateModel {
                summary,
                compacted_turn: state.turn,
                phase: CodingPhase::Infer,
                messages: Seq::empty(),
                ..state
            },
            Err(report) => misread(state, report),
        }
    } else if fact.kind == "model.turn"@ {
        decision_taken(state, config, fact.payload)
    } else if fact.kind == "confirmation.answered"@ {
        match state.pending_call {
            None => state,
            Some(call) => match confirmation_payload(fact.payload) {
                Ok(answer) => if answer.tool_call_id != call.id {
                    state
                } else if answer.approved {
                    StateModel { phase: CodingPhase::Tool, pending_question: None, ..state }
                } else {
                    StateModel {
                        phase: CodingPhase::Done,
                        assistant: Some("denied"@),
                        pending_call: None,
                        ..state
                    }
                },
                Err(report) => misread(state, report),
            },
        }
    } else if fact.kind == "tool.result"@ {
        match tool_result_payload(fact.payload) {
            Ok(result) => input_taken(
                StateModel {
                    tool_runs: if result.ok {
                        (state.tool_runs + 1) as u32
                    } else {
                        state.tool_runs
                    },
                    cycle: (state.cycle + 1) as u64,
                    messages: state.messages.push("tool\n"@ + result.output),
                    pending_call: None,
                    ..state
                },
                config,
            ),
            Err(report) => misread(state, report),
        }
    } else if fact.kind == "question.answered"@ {
        match text_payload(fact.payload) {
            Ok(text) => input_taken(
                StateModel {
                    cycle: (state.cycle + 1) as u64,
                    messages: state.messages.push("user\n"@ + text),
                    pending_question: None,
                    ..state
                },
                config,
            ),
            Err(report) => misread(state, report),
        }
    } else if fact.kind == "budget.denied"@ {
        StateModel {
            phase: CodingPhase::Done,
            assistant: Some("budget"@),
            pending_call: None,
            ..state
        }
    } else {
        state
    }
}

/// The counters of the state have room for the fact.
pub open spec fn countable(state: StateModel, fact: FactModel) -> bool {
    &&& fact.kind == "user.message"@ && text_payload(fact.payload) is Ok ==> state.turn < u64::MAX
    &&& fact.kind == "tool.result"@ ==> match tool_result_payload(fact.payload) {
        Ok(result) => state.cycle < u64::MAX && (result.ok ==> state.tool_runs < u32::MAX),
        Err(_) => true,
    }
    &&& fact.kind == "question.answered"@ && text_payload(fact.payload) is Ok ==> state.cycle
        < u64::MAX
}

/// The message that a text of the user or of a tool makes.
fn add_message(messages: Vec<String>, speaker: &str, text: &str) -> (more: Vec<String>)
    ensures
        texts(more@) == texts(messages@).push(speaker@ + text@),
{
    let mut more = messages;
    let ghost before = more@;
    more.push(concat2(speaker, text));
    assert(texts(more@) =~= texts(before).push(speaker@ + text@));
    more
}

fn on_misread(state: SchedulerState, report: String) -> (next: SchedulerState)
    ensures
        next@ == misread(state@, report@),
{
    SchedulerState { phase: CodingPhase::Done, schema_error: Some(report), ..state }
}

fn on_message(state: SchedulerState, config: &HarnessConfig, payload: &Json) -> (next: SchedulerState)
    requires
        text_payload(payload@) is Ok ==> state.turn < u64::MAX,
    ensures
        next@ == match text_payload(payload@) {
            Ok(text) => input_taken(
                StateModel {
                    turn: (state@.turn + 1) as u64,
                    cycle: 0,
                    messages: state@.messages.push("user\n"@ + text),
                    tool_runs: 0,
                    ..state@
                },
                config@,
            ),
            Err(report) => misread(state@, report),
        },
{
    match read_text_payload(payload) {
        Ok(text) => after_input(
            SchedulerState {
                turn: state.turn + 1,
                cycle: 0,
                messages: add_message(state.messages, "user\n", text.as_str()),
                tool_runs: 0,
                phase: state.phase,
                summary: state.summary,
                compacted_turn: state.compacted_turn,
                assistant: state.assistant,
                pending_call: state.pending_call,
                pending_question: state.pending_question,
                schema_error: state.schema_error,
            },
            config,
        ),
        Err(report) => on_misread(state, report),
    }
}

fn on_compaction(state: SchedulerState, payload: &Json) -> (next: SchedulerState)
    ensures
        next@ == match summary_payload(payload@) {
            Ok(summary) => StateModel {
                summary,
                compacted_turn: state@.turn,
                phase: CodingPhase::Infer,
                messages: Seq::empty(),
                ..state@
            },
            Err(report) => misread(state@, report),
        },
{
    match read_summary_payload(payload) {
        Ok(summary) => {
            let messages: Vec<String> = Vec::new();
            assert(texts(messages@) =~= Seq::empty());
            SchedulerState {
                summary,
                compacted_turn: state.turn,
                phase: CodingPhase::Infer,
                messages,
                ..state
            }
        },
        Err(report) => on_misread(state, report),
    }
}

fn on_confirmation(state: SchedulerState, payload: &Json) -> (next: SchedulerState)
    ensures
        next@ == match state@.pending_call {
            None => state@,
            Some(call) => match confirmation_payload(payload@) {
                Ok(answer) => if answer.tool_call_id != call.id {
                    state@
                } else if answer.approved {
                    StateModel { phase: CodingPhase::Tool, pending_question: None, ..state@ }
                } else {
                    StateModel {
                        phase: CodingPhase::Done,
                        assistant: Some("denied"@),
                        pending_call: None,
                        ..state@
                    }
                },
                Err(report) => misread(state@, report),
            },
        },
{
    let id = match &state.pending_call {
        Some(call) => call.id.clone(),
        None => return state,
    };
    match read_confirmation(payload) {
        Ok(answer) => {
            if !same_text(answer.tool_call_id.as_str(), id.as_str()) {
                state
            } else if answer.approved {
                SchedulerState { phase: CodingPhase::Tool, pending_question: None, ..state }
            } else {
                SchedulerState {
                    phase: CodingPhase::Done,
                    assistant: Some("denied".to_owned()),
                    pending_call: None,
                    ..state
                }
            }
        },
        Err(report) => on_misread(state, report),
    }
}

fn on_tool_result(state: SchedulerState, config: &HarnessConfig, payload: &Json) -> (next:
    SchedulerState)
    requires
        tool_result_payload(payload@) matches Ok(result) ==> state.cycle < u64::MAX && (result.ok
            ==> state.tool_runs < u32::MAX),
    ensures
        next@ == match tool_result_payload(payload@) {
            Ok(result) => input_taken(
                StateModel {
                    tool_runs: if result.ok {
                        (state@.tool_runs + 1) as u32
                    } else {
                        state@.tool_runs
                    },
                    cycle: (state@.cycle + 1) as u64,
                    messages: state@.messages.push("tool\n"@ + result.output),
                    pending_call: None,
                    ..state@
                },
                config@,
            ),
            Err(report) => misread(state@, report),
        },
{
    match read_tool_result(payload) {
        Ok(result) => after_input(
            SchedulerState {
                tool_runs: if result.ok {
                    state.tool_runs + 1
                } else {
                    state.tool_runs
                },
                cycle: state.cycle + 1,
                messages: add_message(state.messages, "tool\n", result.output.as_str()),
                pending_call: None,
                turn: state.turn,
                phase: state.phase,
                summary: state.summary,
                compacted_turn: state.compacted_turn,
                assistant: state.assistant,
                pending_question: state.pending_question,
                schema_error: state.schema_error,
            },
            config,
        ),
        Err(report) => on_misread(state, report),
    }
}

fn on_answer(state: SchedulerState, config: &HarnessConfig, payload: &Json) -> (next: SchedulerState)
    requires
        text_payload(payload@) is Ok ==> state.cycle < u64::MAX,
    ensures
        next@ == match text_payload(payload@) {
            Ok(text) => input_taken(
                StateModel {
                    cycle: (state@.cycle + 1) as u64,
                    messages: state@.messages.push("user\n"@ + text),
                    pending_question: None,
                    ..state@
                },
                config@,
            ),
            Err(report) => misread(state@, report),
        },
{
    match read_text_payload(payload) {
        Ok(text) => after_input(
            SchedulerState {
                cycle: state.cycle + 1,
                messages: add_message(state.messages, "user\n", text.as_str()),
                pending_question: None,
                turn: state.turn,
                phase: state.phase,
                summary: state.summary,
                tool_runs: state.tool_runs,
                compacted_turn: state.compacted_turn,
                assistant: state.assistant,
                pending_call: state.pending_call,
                schema_error: state.schema_error,
            },
            config,
        ),
        Err(report) => on_misread(state, report),
    }
}

/// Takes one fact.
pub fn step(state: SchedulerState, fact: &Fact, config: &HarnessConfig) -> (next: SchedulerState)
    requires
        countable(state@, fact@),
    ensures
        next@ == stepped(state@, fact@, config@),
{
    let kind = fact.kind.as_str();
    if same_text(kind, "user.message") {
        on_message(state, config, &fact.payload)
    } else if same_text(kind, "compaction.done") {
        on_compaction(state, &fact.payload)
    } else if same_text(kind, "model.turn") {
        on_model(state, config, &fact.payload)
    } else if same_text(kind, "confirmation.answered") {
        on_confirmation(state, &fact.payload)
    } else if same_text(kind, "tool.result") {
        on_tool_result(state, config, &fact.payload)
    } else if same_text(kind, "question.answered") {
        on_answer(state, config, &fact.payload)
    } else if same_text(kind, "budget.denied") {
        SchedulerState {
            phase: CodingPhase::Done,
            assistant: Some("budget".to_owned()),
            pending_call: None,
            ..state
        }
    } else {
        state
    }
}

/// What the scheduler shows of its state.
pub open spec fn state_view(state: StateModel) -> CodingViewModel {
    CodingViewModel {
        pending_confirmation: match (state.phase, state.pending_call) {
            (CodingPhase::Confirm, Some(call)) => Some(
                PendingConfirmationModel {
                    tool_call_id: call.id,
                    name: call.name,
                    args: call.args,
                },
            ),
            _ => None,
        },
        pending_question: match state.phase {
            CodingPhase::Question => state.pending_question,
            _ => None,
        },
        assistant: state.assistant,
        phase: state.phase,
        schema_error: state.schema_error,
        ..empty_view()
    }
}

/// Shows the state.
pub fn view_of(state: &SchedulerState) -> (view: CodingView)
    ensures
        view@ == state_view(state@),
{
    CodingView {
        pending_confirmation: match (state.phase, &state.pending_call) {
            (CodingPhase::Confirm, Some(call)) => Some(
                PendingConfirmation {
                    tool_call_id: call.id.clone(),
                    name: call.name.clone(),
                    args: call.args.clone(),
                },
            ),
            _ => None,
        },
        pending_question: match (state.phase, &state.pending_question) {
            (CodingPhase::Question, Some(pending)) => Some(pending.clone()),
            _ => None,
        },
        assistant: copy_opt(&state.assistant),
        phase: state.phase,
        schema_error: copy_opt(&state.schema_error),
        ..CodingView::empty()
    }
}

/// Work that a service does, or that needs none.
#[derive(Debug)]
pub enum CodingTask {
    /// Summarize the messages.
    Compact { messages: Vec<String>, turn: u64 },
    /// Ask the model, and ask again that often where it fails.
    Complete { request: CompletionRequest, retries: u32, turn: u64, cycle: u64 },
    /// Run a tool.
    RunTool { call: ToolCall },
    /// Record that a call was over the budget.
    Deny { tool_call_id: String },
}

/// What a [`CodingTask`] says.
pub enum TaskModel {
    Compact { messages: Seq<Seq<char>>, turn: u64 },
    Complete { request: RequestModel, retries: u32, turn: u64, cycle: u64 },
    RunTool { call: ToolCallModel },
    Deny { tool_call_id: Seq<char> },
}

impl View for CodingTask {
    type V = TaskModel;

    open spec fn view(&self) -> TaskModel {
        match self {
            CodingTask::Compact { messages, turn } => TaskModel::Compact {
                messages: texts(messages@),
                turn: *turn,
            },
            CodingTask::Complete { request, retries, turn, cycle } => TaskModel::Complete {
                request: request@,
                retries: *retries,
                turn: *turn,
                cycle: *cycle,
            },
            CodingTask::RunTool { call } => TaskModel::RunTool { call: call@ },
            CodingTask::Deny { tool_call_id } => TaskModel::Deny { tool_call_id: tool_call_id@ },
        }
    }
}

/// A transition by its key and its task.
pub struct TransitionModel {
    pub key: Seq<char>,
    pub task: TaskModel,
}

/// What a transition of the harness says.
pub open spec fn transition_model(transition: Transition<CodingTask>) -> TransitionModel {
    TransitionModel { key: transition.key@, task: transition.run@ }
}

/// What transitions of the harness say.
pub open spec fn transition_models(transitions: Seq<Transition<CodingTask>>) -> Seq<
    TransitionModel,
> {
    transitions.map_values(|transition: Transition<CodingTask>| transition_model(transition))
}

/// The key of the compaction of a turn.
pub open spec fn compact_key(turn: u64) -> Seq<char> {
    "compact:"@ + decimal(turn as nat)
}

/// The key of a question to the model.
pub open spec fn infer_key(turn: u64, cycle: u64) -> Seq<char> {
    "infer:"@ + decimal(turn as nat) + ":"@ + decimal(cycle as nat)
}

/// The messages to summarize: what an earlier summary says, and what came since.
pub open spec fn compaction_input(state: StateModel) -> Seq<Seq<char>> {
    if state.summary.len() == 0 {
        state.messages
    } else {
        seq![state.summary] + state.messages
    }
}

/// What the model is asked: everything the state holds, but no tools once the cap
/// of tool results is reached.
pub open spec fn request_of(state: StateModel, config: ConfigModel) -> RequestModel {
    RequestModel {
        system: config.system,
        tools: match config.tool_round_cap {
            Some(cap) => if state.tool_runs >= cap {
                Seq::empty()
            } else {
                config.tools
            },
            None => config.tools,
        },
        summary: state.summary,
        messages: state.messages,
    }
}

/// The transitions that a state enables.
pub open spec fn enabled_in(state: StateModel, config: ConfigModel) -> Seq<TransitionModel> {
    match (state.phase, state.pending_call) {
        (CodingPhase::Compact, _) => seq![
            TransitionModel {
                key: compact_key(state.turn),
                task: TaskModel::Compact { messages: compaction_input(state), turn: state.turn },
            },
        ],
        (CodingPhase::Infer, _) => seq![
            TransitionModel {
                key: infer_key(state.turn, state.cycle),
                task: TaskModel::Complete {
                    request: request_of(state, config),
                    retries: if config.model_attempts == 0 {
                        0
                    } else {
                        (config.model_attempts - 1) as u32
                    },
                    turn: state.turn,
                    cycle: state.cycle,
                },
            },
        ],
        (CodingPhase::Tool, Some(call)) => seq![
            TransitionModel { key: "tool:"@ + call.id, task: TaskModel::RunTool { call } },
        ],
        (CodingPhase::Deny, Some(call)) => seq![
            TransitionModel {
                key: "budget:"@ + call.id,
                task: TaskModel::Deny { tool_call_id: call.id },
            },
        ],
        _ => Seq::empty(),
    }
}

fn one(key: String, run: CodingTask) -> (list: Vec<Transition<CodingTask>>)
    ensures
        transition_models(list@) == seq![TransitionModel { key: key@, task: run@ }],
{
    let ghost only = TransitionModel { key: key@, task: run@ };
    let list = vec![Transition { key, run }];
    assert(transition_models(list@) =~= seq![only]);
    list
}

fn none() -> (list: Vec<Transition<CodingTask>>)
    ensures
        transition_models(list@) == Seq::<TransitionModel>::empty(),
{
    let list: Vec<Transition<CodingTask>> = Vec::new();
    assert(transition_models(list@) =~= Seq::empty());
    list
}

/// The transitions that the state enables.
pub fn transitions_of(state: &SchedulerState, config: &HarnessConfig) -> (enabled: Vec<
    Transition<CodingTask>,
>)
    ensures
        transition_models(enabled@) == enabled_in(state@, config@),
{
    match state.phase {
        CodingPhase::Compact => {
            let mut messages = copy_texts(&state.messages);
            let ghost before = messages@;
            if !state.summary.as_str().is_empty() {
                messages.insert(0, state.summary.clone());
                assert(texts(messages@) =~= seq![state.summary@] + texts(before));
            }
            one(
                concat2("compact:", decimal_text(state.turn as u128).as_str()),
                CodingTask::Compact { messages, turn: state.turn },
            )
        },
        CodingPhase::Infer => {
            let capped = match config.tool_round_cap() {
                Some(cap) => state.tool_runs >= cap,
                None => false,
            };
            let tools = if capped {
                Vec::new()
            } else {
                copy_tools(config.tools())
            };
            assert(capped ==> tool_models(tools@) =~= Seq::empty());
            let request = CompletionRequest {
                system: copy_texts(config.system()),
                tools,
                summary: state.summary.clone(),
                messages: copy_texts(&state.messages),
            };
            let head = concat2("infer:", decimal_text(state.turn as u128).as_str());
            one(
                concat3(head.as_str(), ":", decimal_text(state.cycle as u128).as_str()),
                CodingTask::Complete {
                    request,
                    retries: config.model_attempts().saturating_sub(1),
                    turn: state.turn,
                    cycle: state.cycle,
                },
            )
        },
        CodingPhase::Tool => match &state.pending_call {
            Some(call) => one(
                concat2("tool:", call.id.as_str()),
                CodingTask::RunTool { call: call.clone() },
            ),
            None => none(),
        },
        CodingPhase::Deny => match &state.pending_call {
            Some(call) => one(
                concat2("budget:", call.id.as_str()),
                CodingTask::Deny { tool_call_id: call.id.clone() },
            ),
            None => none(),
        },
        CodingPhase::Idle | CodingPhase::Confirm | CodingPhase::Question | CodingPhase::Done => {
            none()
        },
    }
}

/// The state behind a log.
pub open spec fn state_of(config: ConfigModel, facts: Seq<FactModel>) -> StateModel {
    folded(first_state(), |state: StateModel, fact: FactModel| stepped(state, fact, config), facts)
}

/// The state behind one more fact.
pub proof fn lemma_state_of_push(config: ConfigModel, facts: Seq<FactModel>)
    ensures
        state_of(config, Seq::empty()) == first_state(),
        facts.len() > 0 ==> state_of(config, facts) == stepped(
            state_of(config, facts.drop_last()),
            facts.last(),
            config,
        ),
{
}

} // verus!
