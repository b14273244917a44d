//! What values say is what they hold: nothing is left out, added or changed between a
//! value and the model that the contracts speak of.

use vstd::prelude::*;

use crate::actor::{keys_of, Transition};
use crate::coding::{tool_models, view_models, CodingView, CompletionRequest, PendingConfirmation,
    PendingQuestion, ToolSpec};
use crate::compose::MetaHarnessSpec;
use crate::effect::{told, TraceEvent};
use crate::error::{ActorError, ErrorModel};
use crate::exit::Exit;
use crate::fact::{said, said_new, Fact, NewFact};
use crate::json::{member_models, models, number_text, Json, JsonModel, JsonObject, Member};
use crate::payload::{ConfirmationPayload, DecisionModel, ModelDecision, ToolCall,
    ToolResultPayload};
use crate::scheduler::{transition_models, CodingTask, SchedulerState, TaskModel};
use crate::text::{str_opt, text_opt, texts};

verus! {

/// A model of a list of texts that holds each of them, in order.
pub open spec fn same_texts(model: Seq<Seq<char>>, items: Seq<String>) -> bool {
    &&& model.len() == items.len()
    &&& forall|i: int| 0 <= i < items.len() ==> #[trigger] model[i] == items[i]@
}

/// A model of an optional text that holds it.
pub open spec fn same_option(model: Option<Seq<char>>, item: Option<String>) -> bool {
    match item {
        Some(text) => model == Some(text@),
        None => model is None,
    }
}

/// Lists and options say their texts.
pub proof fn law_texts_say_what_they_hold(
    items: Seq<String>,
    item: Option<String>,
    borrowed: Option<&str>,
)
    ensures
        same_texts(texts(items), items),
        same_option(text_opt(item), item),
        borrowed matches Some(text) ==> str_opt(borrowed) == Some(text@),
        borrowed is None ==> str_opt(borrowed) is None,
{
}

/// Facts say their fields, and logs say their facts in order.
pub proof fn law_facts_say_what_they_hold(
    facts: Seq<Fact>,
    fresh: Seq<NewFact>,
    at: int,
    fact: Fact,
    new: NewFact,
)
    ensures
        fact@.seq == fact.seq && fact@.kind == fact.kind@ && fact@.key == fact.key@
            && fact@.payload == fact.payload@ && same_option(fact@.cause, fact.cause),
        new@.kind == new.kind@ && new@.key == new.key@ && new@.payload == new.payload@,
        said(facts).len() == facts.len(),
        0 <= at < facts.len() ==> said(facts)[at] == facts[at]@,
        said_new(fresh).len() == fresh.len(),
        0 <= at < fresh.len() ==> said_new(fresh)[at] == fresh[at]@,
{
}

/// JSON values say their contents: arrays their elements in order, and objects their
/// members as they are kept.
pub proof fn law_values_say_what_they_hold(
    json: Json,
    items: Seq<Json>,
    members: Seq<Member>,
    at: int,
)
    ensures
        json is Null ==> json@ == JsonModel::Null,
        json matches Json::Bool(flag) ==> json@ == JsonModel::Bool(flag),
        json matches Json::Number(number) ==> json@ == JsonModel::Number(number_text(number)),
        json matches Json::Text(text) ==> json@ == JsonModel::Text(text@),
        json matches Json::Array(held) ==> json@ == JsonModel::Array(models(held@)),
        json matches Json::Object(held) ==> json@ == JsonModel::Object(held@),
        models(items).len() == items.len(),
        0 <= at < items.len() ==> models(items)[at] == items[at]@,
        member_models(members).len() == members.len(),
        0 <= at < members.len() ==> member_models(members)[at].name == members[at].name@
            && member_models(members)[at].value == members[at].value@,
{
    match json {
        Json::Array(held) => {
            crate::json::lemma_view_array(held);
        },
        Json::Object(held) => {
            crate::json::lemma_view_object(held);
        },
        _ => {},
    }
}

/// An object says the members that it lists.
pub proof fn law_objects_say_what_they_list(object: JsonObject)
    ensures
        object@ == member_models(object.listed()),
{
}

/// Calls, decisions, answers and results say their fields.
pub proof fn law_payloads_say_what_they_hold(
    call: ToolCall,
    decision: ModelDecision,
    answer: ConfirmationPayload,
    result: ToolResultPayload,
)
    ensures
        call@.id == call.id@ && call@.name == call.name@ && call@.args == call.args@
            && call@.needs_confirmation == call.needs_confirmation && same_option(
            call@.text,
            call.text,
        ) && same_option(call@.reasoning, call.reasoning),
        decision matches ModelDecision::Text { text } ==> decision@ == (DecisionModel::Text {
            text: text@,
        }),
        decision matches ModelDecision::Tool { call: asked } ==> decision@ == (
        DecisionModel::Tool { call: asked@ }),
        decision matches ModelDecision::Question {
            question_id,
            question,
            allow_free_text,
            options,
        } ==> (decision@ matches DecisionModel::Question {
            question_id: said_id,
            question: said_question,
            allow_free_text: said_flag,
            options: said_options,
        } && said_id == question_id@ && said_question == question@ && said_flag == allow_free_text
            && same_texts(said_options, options@)),
        answer@.tool_call_id == answer.tool_call_id@ && answer@.approved == answer.approved,
        result@.ok == result.ok && result@.output == result.output@,
{
}

/// The state of the scheduler says all its fields.
pub proof fn law_states_say_what_they_hold(state: SchedulerState)
    ensures
        state@.turn == state.turn,
        state@.cycle == state.cycle,
        state@.phase == state.phase,
        same_texts(state@.messages, state.messages@),
        state@.summary == state.summary@,
        state@.tool_runs == state.tool_runs,
        state@.compacted_turn == state.compacted_turn,
        same_option(state@.assistant, state.assistant),
        same_option(state@.schema_error, state.schema_error),
        state.pending_call matches Some(call) ==> state@.pending_call == Some(call@),
        state.pending_call is None ==> state@.pending_call is None,
        state.pending_question matches Some(asked) ==> state@.pending_question == Some(asked@),
        state.pending_question is None ==> state@.pending_question is None,
{
}

/// Tools, requests and what waits say their fields.
pub proof fn law_requests_say_what_they_hold(
    tool: ToolSpec,
    tools: Seq<ToolSpec>,
    at: int,
    request: CompletionRequest,
    call: PendingConfirmation,
    asked: PendingQuestion,
)
    ensures
        tool@.name == tool.name@ && tool@.description == tool.description@,
        tool_models(tools).len() == tools.len(),
        0 <= at < tools.len() ==> tool_models(tools)[at] == tools[at]@,
        same_texts(request@.system, request.system@),
        request@.tools == tool_models(request.tools@),
        request@.summary == request.summary@,
        same_texts(request@.messages, request.messages@),
        call@.tool_call_id == call.tool_call_id@ && call@.name == call.name@ && call@.args
            == call.args@,
        asked@.question_id == asked.question_id@ && asked@.question == asked.question@
            && asked@.allow_free_text == asked.allow_free_text && same_texts(
            asked@.options,
            asked.options@,
        ),
{
}

/// Tasks and transitions say what is handed over.
pub proof fn law_tasks_say_what_they_hold(
    task: CodingTask,
    transitions: Seq<Transition<CodingTask>>,
    at: int,
)
    ensures
        task matches CodingTask::Compact { messages, turn } ==> (task@ matches TaskModel::Compact {
            messages: handed,
            turn: told_turn,
        } && same_texts(handed, messages@) && told_turn == turn),
        task matches CodingTask::Complete { request, retries, turn, cycle } ==> task@ == (
        TaskModel::Complete { request: request@, retries, turn, cycle }),
        task matches CodingTask::RunTool { call } ==> task@ == (TaskModel::RunTool {
            call: call@,
        }),
        task matches CodingTask::Deny { tool_call_id } ==> task@ == (TaskModel::Deny {
            tool_call_id: tool_call_id@,
        }),
        transition_models(transitions).len() == transitions.len(),
        0 <= at < transitions.len() ==> transition_models(transitions)[at].key
            == transitions[at].key@ && transition_models(transitions)[at].task
            == transitions[at].run@,
        keys_of(transitions).len() == transitions.len(),
        0 <= at < transitions.len() ==> keys_of(transitions)[at] == transitions[at].key@,
{
}

/// Views say all that they show.
pub proof fn law_views_say_what_they_show(view: CodingView, views: Seq<CodingView>, at: int)
    ensures
        same_texts(view@.system, view.system@),
        view@.tools == tool_models(view.tools@),
        view.pending_confirmation matches Some(call) ==> view@.pending_confirmation == Some(call@),
        view.pending_confirmation is None ==> view@.pending_confirmation is None,
        view.pending_question matches Some(asked) ==> view@.pending_question == Some(asked@),
        view.pending_question is None ==> view@.pending_question is None,
        same_option(view@.assistant, view.assistant),
        view@.phase == view.phase,
        same_option(view@.schema_error, view.schema_error),
        view@.tool_budget == view.tool_budget,
        view@.compact_after_chars == view.compact_after_chars,
        view_models(views).len() == views.len(),
        0 <= at < views.len() ==> view_models(views)[at] == views[at]@,
{
}

/// Recipes say all their settings.
pub proof fn law_recipes_say_what_they_hold(recipe: MetaHarnessSpec)
    ensures
        recipe@.name == recipe.name@,
        recipe@.budget == recipe.budget,
        recipe@.compact_after_chars == recipe.compact_after_chars,
        recipe@.step_limit == recipe.step_limit,
        recipe@.model_attempts == recipe.model_attempts,
        same_texts(recipe@.system, recipe.system@),
        recipe@.tools == tool_models(recipe.tools@),
        recipe@.tool_round_cap == recipe.tool_round_cap,
        recipe@.parts == recipe.parts@,
{
}

/// Events and errors say what happened.
pub proof fn law_events_and_errors_say_what_they_hold(
    event: TraceEvent,
    events: Seq<TraceEvent>,
    at: int,
    error: ActorError,
)
    ensures
        event@.name == event.name@ && event@.outcome == event.outcome@,
        told(events).len() == events.len(),
        0 <= at < events.len() ==> told(events)[at] == events[at]@,
        error matches ActorError::DuplicateFact { key } ==> error@ == (ErrorModel::DuplicateFact {
            key: key@,
        }),
        error matches ActorError::DuplicateTransition { key } ==> error@ == (
        ErrorModel::DuplicateTransition { key: key@ }),
        error matches ActorError::StepLimit { limit } ==> error@ == (ErrorModel::StepLimit {
            limit,
        }),
        error matches ActorError::BadThreadId { thread_id } ==> error@ == (
        ErrorModel::BadThreadId { thread_id: thread_id@ }),
        error matches ActorError::Schema(message) ==> error@ == ErrorModel::Schema(message@),
        error matches ActorError::Config(message) ==> error@ == ErrorModel::Config(message@),
        error matches ActorError::Handler { key, message } ==> error@ == (ErrorModel::Handler {
            key: key@,
            message: message@,
        }),
        error matches ActorError::Defect(message) ==> error@ == ErrorModel::Defect(message@),
{
}

/// An error that stops a program stays the error that it was.
pub proof fn law_errors_stay_failures(error: ActorError)
    ensures
        <Exit<ActorError> as vstd::std_specs::convert::FromSpec<ActorError>>::from_spec(error)
            == Exit::<ActorError>::Fail(error),
{
}

/// A JSON value equals itself, and a text, a flag or nothing equals only the same.
pub proof fn law_equal_values_hold_the_same(a: Json, b: Json)
    ensures
        a@ == b@ ==> vstd::std_specs::cmp::PartialEqSpec::eq_spec(&a, &b),
        vstd::std_specs::cmp::PartialEqSpec::eq_spec(&a, &b)
            == vstd::std_specs::cmp::PartialEqSpec::eq_spec(&b, &a),
        (a@ is Text || a@ is Bool || a@ is Null) && vstd::std_specs::cmp::PartialEqSpec::eq_spec(
            &a,
            &b,
        ) ==> a@ == b@,
{
    crate::text_laws::law_sameness_is_mutual(a@, b@, Seq::empty());
}

} // verus!
