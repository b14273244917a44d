//! What the coding harness is for, told over the facts of a log: how a turn is
//! counted, what the conversation holds, which calls run, and what is handed to the
//! services.

use vstd::prelude::*;

use crate::coding::{CodingPhase, CodingViewModel, ConfigModel, PendingConfirmationModel,
    PendingQuestionModel};
use crate::fact::FactModel;
use crate::payload::{confirmation_payload, decision_payload, summary_payload, text_payload,
    tool_result_payload, ConfirmationModel, DecisionModel, ToolCallModel, ToolResultModel};
use crate::scheduler::{capped, enabled_in, first_state, lemma_state_of_push, sizes, state_of, state_size,
    state_view, stepped, StateModel, TaskModel, TransitionModel};
use crate::scheduler_laws::{due, fits, law_log_keeps_the_budget, lemma_kinds};
use crate::text::{byte_len, decimal};

verus! {

/// A message of the user that can be read.
pub open spec fn is_message(fact: FactModel) -> bool {
    fact.kind == "user.message"@ && text_payload(fact.payload) is Ok
}

/// The result of a tool that succeeded.
pub open spec fn is_success(fact: FactModel) -> bool {
    fact.kind == "tool.result"@ && (tool_result_payload(fact.payload) matches Ok(result)
        && result.ok)
}

/// The result of a tool, or the answer to a question.
pub open spec fn is_reply(fact: FactModel) -> bool {
    ||| fact.kind == "tool.result"@ && tool_result_payload(fact.payload) is Ok
    ||| fact.kind == "question.answered"@ && text_payload(fact.payload) is Ok
}

/// A summary that can be read.
pub open spec fn is_compaction(fact: FactModel) -> bool {
    fact.kind == "compaction.done"@ && summary_payload(fact.payload) is Ok
}

/// The facts of a log of which something holds, counted.
pub open spec fn count(facts: Seq<FactModel>, holds: spec_fn(FactModel) -> bool) -> nat
    decreases facts.len(),
{
    if facts.len() == 0 {
        0
    } else {
        count(facts.drop_last(), holds) + if holds(facts.last()) {
            1nat
        } else {
            0nat
        }
    }
}

/// None of the facts is one of which this holds.
pub open spec fn without(facts: Seq<FactModel>, holds: spec_fn(FactModel) -> bool) -> bool {
    forall|i: int| 0 <= i < facts.len() ==> !holds(#[trigger] facts[i])
}

/// What a fact adds to the conversation.
pub open spec fn line_of(fact: FactModel) -> Option<Seq<char>> {
    if fact.kind == "user.message"@ || fact.kind == "question.answered"@ {
        match text_payload(fact.payload) {
            Ok(text) => Some("user\n"@ + text),
            Err(_) => None,
        }
    } else if fact.kind == "tool.result"@ {
        match tool_result_payload(fact.payload) {
            Ok(result) => Some("tool\n"@ + result.output),
            Err(_) => None,
        }
    } else {
        None
    }
}

/// What facts add to the conversation, in their order.
pub open spec fn lines_added(facts: Seq<FactModel>) -> Seq<Seq<char>>
    decreases facts.len(),
{
    if facts.len() == 0 {
        Seq::empty()
    } else {
        match line_of(facts.last()) {
            Some(line) => lines_added(facts.drop_last()).push(line),
            None => lines_added(facts.drop_last()),
        }
    }
}

/// The counters have room for every start of a log for which they have room.
proof fn lemma_fits_before(config: ConfigModel, facts: Seq<FactModel>)
    requires
        fits(config, facts),
        facts.len() > 0,
    ensures
        fits(config, facts.drop_last()),
        crate::scheduler::countable(state_of(config, facts.drop_last()), facts.last()),
{
    let rest = facts.drop_last();
    assert forall|i: int| 0 <= i < rest.len() implies crate::scheduler::countable(
        state_of(config, rest.take(i)),
        #[trigger] rest[i],
    ) by {
        assert(rest.take(i) =~= facts.take(i));
        assert(rest[i] == facts[i]);
    }
    assert(facts.take(facts.len() - 1) =~= rest);
    assert(crate::scheduler::countable(
        state_of(config, facts.take(facts.len() - 1)),
        facts[facts.len() - 1],
    ));
}

/// The state behind one more fact.
proof fn lemma_one_more(config: ConfigModel, before: Seq<FactModel>, after: Seq<FactModel>)
    requires
        after.len() > 0,
    ensures
        (before + after).drop_last() == before + after.drop_last(),
        (before + after).last() == after.last(),
        state_of(config, before + after) == stepped(
            state_of(config, before + after.drop_last()),
            after.last(),
            config,
        ),
{
    assert((before + after).drop_last() =~= before + after.drop_last());
    lemma_state_of_push(config, before + after);
}

/// What one fact does to the counters.
proof fn lemma_counters_step(state: StateModel, fact: FactModel, config: ConfigModel)
    requires
        crate::scheduler::countable(state, fact),
    ensures
        is_message(fact) ==> stepped(state, fact, config).turn == state.turn + 1,
        !is_message(fact) ==> stepped(state, fact, config).turn == state.turn,
        is_message(fact) ==> stepped(state, fact, config).tool_runs == 0 && stepped(
            state,
            fact,
            config,
        ).cycle == 0,
        !is_message(fact) ==> stepped(state, fact, config).tool_runs == state.tool_runs
            + if is_success(fact) {
            1int
        } else {
            0int
        },
        !is_message(fact) ==> stepped(state, fact, config).cycle == state.cycle + if is_reply(
            fact,
        ) {
            1int
        } else {
            0int
        },
{
    lemma_kinds();
}

/// The turns are counted: a log is in the turn of its messages.
pub proof fn law_turns_are_counted(config: ConfigModel, facts: Seq<FactModel>)
    requires
        fits(config, facts),
    ensures
        state_of(config, facts).turn == count(facts, |fact: FactModel| is_message(fact)),
    decreases facts.len(),
{
    lemma_state_of_push(config, facts);
    if facts.len() > 0 {
        lemma_fits_before(config, facts);
        law_turns_are_counted(config, facts.drop_last());
        lemma_counters_step(state_of(config, facts.drop_last()), facts.last(), config);
    } else {
        assert(facts =~= Seq::empty());
    }
}

/// The tools that ran are counted: behind the last message, as many have run as
/// results tell of a success, and none at the message itself.
pub proof fn law_tool_runs_are_counted(
    config: ConfigModel,
    before: Seq<FactModel>,
    after: Seq<FactModel>,
)
    requires
        fits(config, before + after),
        before.len() == 0 || is_message(before.last()),
        without(after, |fact: FactModel| is_message(fact)),
    ensures
        state_of(config, before + after).tool_runs == count(
            after,
            |fact: FactModel| is_success(fact),
        ),
    decreases after.len(),
{
    if after.len() > 0 {
        lemma_one_more(config, before, after);
        lemma_fits_before(config, before + after);
        let message = |fact: FactModel| is_message(fact);
        let rest = after.drop_last();
        assert forall|i: int| 0 <= i < rest.len() implies !message(#[trigger] rest[i]) by {
            assert(rest[i] == after[i]);
        }
        law_tool_runs_are_counted(config, before, rest);
        assert(!message(after[after.len() - 1]));
        lemma_counters_step(state_of(config, before + rest), after.last(), config);
    } else {
        assert(before + after =~= before);
        lemma_state_of_push(config, before);
        if before.len() == 0 {
            assert(before =~= Seq::empty());
        } else {
            lemma_fits_before(config, before);
            lemma_counters_step(state_of(config, before.drop_last()), before.last(), config);
        }
    }
}

/// The cycles of a turn are counted: one for each result and each answer behind the
/// last message.
pub proof fn law_cycles_are_counted(
    config: ConfigModel,
    before: Seq<FactModel>,
    after: Seq<FactModel>,
)
    requires
        fits(config, before + after),
        before.len() == 0 || is_message(before.last()),
        without(after, |fact: FactModel| is_message(fact)),
    ensures
        state_of(config, before + after).cycle == count(after, |fact: FactModel| is_reply(fact)),
    decreases after.len(),
{
    if after.len() > 0 {
        lemma_one_more(config, before, after);
        lemma_fits_before(config, before + after);
        let message = |fact: FactModel| is_message(fact);
        let rest = after.drop_last();
        assert forall|i: int| 0 <= i < rest.len() implies !message(#[trigger] rest[i]) by {
            assert(rest[i] == after[i]);
        }
        law_cycles_are_counted(config, before, rest);
        assert(!message(after[after.len() - 1]));
        lemma_counters_step(state_of(config, before + rest), after.last(), config);
    } else {
        assert(before + after =~= before);
        lemma_state_of_push(config, before);
        if before.len() == 0 {
            assert(before =~= Seq::empty());
        } else {
            lemma_fits_before(config, before);
            lemma_counters_step(state_of(config, before.drop_last()), before.last(), config);
        }
    }
}

/// The budget holds: where facts arrive when they are due, no more tools succeed
/// behind a message than the budget allows, and a tool is enabled only while fewer
/// have.
pub proof fn law_no_turn_runs_over_the_budget(
    config: ConfigModel,
    before: Seq<FactModel>,
    after: Seq<FactModel>,
)
    requires
        fits(config, before + after),
        before.len() == 0 || is_message(before.last()),
        without(after, |fact: FactModel| is_message(fact)),
        forall|i: int|
            0 <= i < (before + after).len() ==> due(
                state_of(config, (before + after).take(i)),
                #[trigger] (before + after)[i],
            ),
    ensures
        count(after, |fact: FactModel| is_success(fact)) <= config.budget,
        forall|i: int|
            0 <= i < enabled_in(state_of(config, before + after), config).len() && ((
            #[trigger] enabled_in(state_of(config, before + after), config)[i]).task is RunTool)
                ==> count(after, |fact: FactModel| is_success(fact)) < config.budget,
{
    law_tool_runs_are_counted(config, before, after);
    law_log_keeps_the_budget(config, before + after);
}

/// A call over the budget never runs: behind as many successes as the budget allows,
/// a call of the model is denied, and the denial is all that is enabled.
pub proof fn law_the_budget_stops_the_next_call(
    config: ConfigModel,
    before: Seq<FactModel>,
    after: Seq<FactModel>,
    asked: FactModel,
    call: ToolCallModel,
)
    requires
        fits(config, before + after),
        before.len() == 0 || is_message(before.last()),
        without(after, |fact: FactModel| is_message(fact)),
        asked.kind == "model.turn"@,
        decision_payload(asked.payload) == Ok::<DecisionModel, Seq<char>>(
            DecisionModel::Tool { call },
        ),
    ensures
        ({
            let next = stepped(state_of(config, before + after), asked, config);
            let enabled = enabled_in(next, config);
            if count(after, |fact: FactModel| is_success(fact)) >= config.budget {
                &&& next.phase == CodingPhase::Deny
                &&& enabled.len() == 1
                &&& enabled[0].key == "budget:"@ + call.id
                &&& enabled[0].task == (TaskModel::Deny { tool_call_id: call.id })
            } else {
                next.phase == if call.needs_confirmation {
                    CodingPhase::Confirm
                } else {
                    CodingPhase::Tool
                }
            }
        }),
{
    lemma_kinds();
    law_tool_runs_are_counted(config, before, after);
}

/// The conversation holds everything that was said since the last summary, word for
/// word and in order, and the summary is that of the last compaction.
pub proof fn law_the_conversation_is_kept(
    config: ConfigModel,
    before: Seq<FactModel>,
    after: Seq<FactModel>,
)
    requires
        before.len() == 0 || is_compaction(before.last()),
        without(after, |fact: FactModel| is_compaction(fact)),
    ensures
        state_of(config, before + after).messages == lines_added(after),
        before.len() == 0 ==> state_of(config, before + after).summary.len() == 0,
        before.len() > 0 ==> summary_payload(before.last().payload) == Ok::<Seq<char>, Seq<char>>(
            state_of(config, before + after).summary,
        ),
    decreases after.len(),
{
    lemma_kinds();
    if after.len() > 0 {
        lemma_one_more(config, before, after);
        let summary = |fact: FactModel| is_compaction(fact);
        let rest = after.drop_last();
        assert forall|i: int| 0 <= i < rest.len() implies !summary(#[trigger] rest[i]) by {
            assert(rest[i] == after[i]);
        }
        law_the_conversation_is_kept(config, before, rest);
        assert(!summary(after[after.len() - 1]));
    } else {
        assert(before + after =~= before);
        lemma_state_of_push(config, before);
        if before.len() == 0 {
            assert(before =~= Seq::empty());
        }
    }
}

/// Two logs that say the same to the model since their last summary, and in which as
/// much was counted, are asked the same.
pub proof fn law_requests_follow_the_conversation(
    config: ConfigModel,
    one: StateModel,
    other: StateModel,
)
    requires
        one.phase == CodingPhase::Infer,
        other.phase == CodingPhase::Infer,
        one.messages == other.messages,
        one.summary == other.summary,
        one.tool_runs == other.tool_runs,
        one.turn == other.turn,
        one.cycle == other.cycle,
    ensures
        enabled_in(one, config) == enabled_in(other, config),
{
}

/// What a state and another one have alike but for the phase and what waits.
pub open spec fn same_conversation(state: StateModel, next: StateModel) -> bool {
    &&& next.turn == state.turn
    &&& next.cycle == state.cycle
    &&& next.messages == state.messages
    &&& next.summary == state.summary
    &&& next.tool_runs == state.tool_runs
    &&& next.compacted_turn == state.compacted_turn
}

/// An input adds one message to the conversation, word for word, and goes on: the
/// conversation is compacted where its bytes reach the threshold and this turn has
/// not compacted it, and else the model is asked. Nothing waits any more.
pub open spec fn goes_on_with(
    state: StateModel,
    next: StateModel,
    line: Seq<char>,
    config: ConfigModel,
) -> bool {
    &&& next.messages.len() == state.messages.len() + 1
    &&& next.messages.last() == line
    &&& forall|i: int|
        0 <= i < state.messages.len() ==> #[trigger] next.messages[i] == state.messages[i]
    &&& next.summary == state.summary
    &&& next.compacted_turn == state.compacted_turn
    &&& next.schema_error == state.schema_error
    &&& next.assistant is None
    &&& next.pending_call is None
    &&& next.pending_question is None
    &&& next.phase == CodingPhase::Compact || next.phase == CodingPhase::Infer
    &&& next.phase == CodingPhase::Compact <==> byte_len(next.summary) + sizes(next.messages)
        >= config.compact_after_chars && next.compacted_turn != next.turn
}

/// A message of the user starts a turn: it is the next one, no cycle and no tool has
/// been there, and the text is the last message.
pub proof fn law_a_message_starts_a_turn(
    state: StateModel,
    fact: FactModel,
    config: ConfigModel,
    text: Seq<char>,
)
    requires
        fact.kind == "user.message"@,
        text_payload(fact.payload) == Ok::<Seq<char>, Seq<char>>(text),
        state.turn < u64::MAX,
    ensures
        ({
            let next = stepped(state, fact, config);
            &&& goes_on_with(state, next, "user\n"@ + text, config)
            &&& next.turn == state.turn + 1
            &&& next.cycle == 0
            &&& next.tool_runs == 0
        }),
{
    lemma_kinds();
}

/// The answer to a question reaches the model: its text is the last message, in a
/// further cycle of the same turn.
pub proof fn law_an_answer_reaches_the_model(
    state: StateModel,
    fact: FactModel,
    config: ConfigModel,
    text: Seq<char>,
)
    requires
        fact.kind == "question.answered"@,
        text_payload(fact.payload) == Ok::<Seq<char>, Seq<char>>(text),
        state.cycle < u64::MAX,
    ensures
        ({
            let next = stepped(state, fact, config);
            &&& goes_on_with(state, next, "user\n"@ + text, config)
            &&& next.turn == state.turn
            &&& next.cycle == state.cycle + 1
            &&& next.tool_runs == state.tool_runs
        }),
{
    lemma_kinds();
}

/// The result of a tool reaches the model: what it put out is the last message, in a
/// further cycle of the same turn, and a success is one more tool that ran.
pub proof fn law_a_result_reaches_the_model(
    state: StateModel,
    fact: FactModel,
    config: ConfigModel,
    result: ToolResultModel,
)
    requires
        fact.kind == "tool.result"@,
        tool_result_payload(fact.payload) == Ok::<ToolResultModel, Seq<char>>(result),
        state.cycle < u64::MAX,
        state.tool_runs < u32::MAX,
    ensures
        ({
            let next = stepped(state, fact, config);
            &&& goes_on_with(state, next, "tool\n"@ + result.output, config)
            &&& next.turn == state.turn
            &&& next.cycle == state.cycle + 1
            &&& result.ok ==> next.tool_runs == state.tool_runs + 1
            &&& !result.ok ==> next.tool_runs == state.tool_runs
        }),
{
    lemma_kinds();
}

/// The size of a conversation is that of all its texts in bytes: nothing, where it
/// is empty, and the bytes of each text more.
pub proof fn law_every_byte_counts(state: StateModel, texts: Seq<Seq<char>>, text: Seq<char>)
    ensures
        byte_len(text) == vstd::utf8::encode_utf8(text).len(),
        sizes(Seq::empty()) == 0,
        sizes(texts.push(text)) == sizes(texts) + vstd::utf8::encode_utf8(text).len(),
        state_size(state) == vstd::utf8::encode_utf8(state.summary).len() + sizes(state.messages),
        state_size(state) <= usize::MAX ==> capped(state_size(state)) == state_size(state),
        state_size(state) > usize::MAX ==> capped(state_size(state)) == usize::MAX,
{
    assert(texts.push(text).drop_last() =~= texts);
}

/// A summary takes the place of the conversation for the rest of the turn: nothing
/// of the turn itself changes, and the model is asked.
pub proof fn law_a_summary_replaces_the_conversation(
    state: StateModel,
    fact: FactModel,
    config: ConfigModel,
    summary: Seq<char>,
)
    requires
        fact.kind == "compaction.done"@,
        summary_payload(fact.payload) == Ok::<Seq<char>, Seq<char>>(summary),
    ensures
        ({
            let next = stepped(state, fact, config);
            &&& next.summary == summary
            &&& next.messages.len() == 0
            &&& next.phase == CodingPhase::Infer
            &&& next.compacted_turn == state.turn
            &&& next.turn == state.turn
            &&& next.cycle == state.cycle
            &&& next.tool_runs == state.tool_runs
            &&& next.assistant == state.assistant
            &&& next.pending_call == state.pending_call
            &&& next.pending_question == state.pending_question
            &&& next.schema_error == state.schema_error
        }),
{
    lemma_kinds();
}

/// A tool call of the model waits for its confirmation where it needs one, runs where
/// it needs none, and is denied over the budget. While it waits, it is shown and
/// nothing is enabled; else exactly this call is run or denied.
pub proof fn law_a_call_waits_runs_or_is_denied(
    state: StateModel,
    fact: FactModel,
    config: ConfigModel,
    call: ToolCallModel,
)
    requires
        fact.kind == "model.turn"@,
        decision_payload(fact.payload) == Ok::<DecisionModel, Seq<char>>(
            DecisionModel::Tool { call },
        ),
    ensures
        ({
            let next = stepped(state, fact, config);
            let shown = state_view(next);
            let enabled = enabled_in(next, config);
            &&& same_conversation(state, next)
            &&& next.pending_call == Some(call)
            &&& next.pending_question == state.pending_question
            &&& next.assistant == state.assistant
            &&& next.schema_error == state.schema_error
            &&& shown.phase == next.phase
            &&& if state.tool_runs >= config.budget {
                &&& next.phase == CodingPhase::Deny
                &&& shown.pending_confirmation is None
                &&& enabled.len() == 1
                &&& enabled[0].key == "budget:"@ + call.id
                &&& enabled[0].task == (TaskModel::Deny { tool_call_id: call.id })
            } else if call.needs_confirmation {
                &&& next.phase == CodingPhase::Confirm
                &&& shown.pending_confirmation == Some(
                    PendingConfirmationModel {
                        tool_call_id: call.id,
                        name: call.name,
                        args: call.args,
                    },
                )
                &&& enabled.len() == 0
            } else {
                &&& next.phase == CodingPhase::Tool
                &&& shown.pending_confirmation is None
                &&& enabled.len() == 1
                &&& enabled[0].key == "tool:"@ + call.id
                &&& enabled[0].task == (TaskModel::RunTool { call })
            }
        }),
{
    lemma_kinds();
}

/// A question of the model waits for its answer: it is shown as it was asked, and
/// nothing is enabled.
pub proof fn law_a_question_waits(
    state: StateModel,
    fact: FactModel,
    config: ConfigModel,
    asked: PendingQuestionModel,
)
    requires
        fact.kind == "model.turn"@,
        decision_payload(fact.payload) == Ok::<DecisionModel, Seq<char>>(
            DecisionModel::Question {
                question_id: asked.question_id,
                question: asked.question,
                allow_free_text: asked.allow_free_text,
                options: asked.options,
            },
        ),
    ensures
        ({
            let next = stepped(state, fact, config);
            &&& same_conversation(state, next)
            &&& next.phase == CodingPhase::Question
            &&& next.pending_call is None
            &&& next.pending_question == Some(asked)
            &&& next.assistant == state.assistant
            &&& next.schema_error == state.schema_error
            &&& state_view(next).pending_question == Some(asked)
            &&& state_view(next).phase == CodingPhase::Question
            &&& enabled_in(next, config).len() == 0
        }),
{
    lemma_kinds();
}

/// Words of the model end the turn: they are shown as they are, and nothing is
/// enabled.
pub proof fn law_words_end_the_turn(
    state: StateModel,
    fact: FactModel,
    config: ConfigModel,
    text: Seq<char>,
)
    requires
        fact.kind == "model.turn"@,
        decision_payload(fact.payload) == Ok::<DecisionModel, Seq<char>>(
            DecisionModel::Text { text },
        ),
    ensures
        ({
            let next = stepped(state, fact, config);
            &&& same_conversation(state, next)
            &&& next.phase == CodingPhase::Done
            &&& next.assistant == Some(text)
            &&& next.pending_call is None
            &&& next.pending_question == state.pending_question
            &&& next.schema_error == state.schema_error
            &&& state_view(next).assistant == Some(text)
            &&& state_view(next).phase == CodingPhase::Done
            &&& enabled_in(next, config).len() == 0
        }),
{
    lemma_kinds();
}

/// The report on the payload of a fact that cannot be read. The answer to a
/// confirmation is read only while a call waits.
pub open spec fn unread(state: StateModel, fact: FactModel) -> Option<Seq<char>> {
    if fact.kind == "user.message"@ || fact.kind == "question.answered"@ {
        text_payload(fact.payload).err()
    } else if fact.kind == "compaction.done"@ {
        summary_payload(fact.payload).err()
    } else if fact.kind == "model.turn"@ {
        decision_payload(fact.payload).err()
    } else if fact.kind == "tool.result"@ {
        tool_result_payload(fact.payload).err()
    } else if fact.kind == "confirmation.answered"@ && state.pending_call is Some {
        confirmation_payload(fact.payload).err()
    } else {
        None
    }
}

/// A payload that cannot be read ends the turn with its report: the report is shown,
/// nothing is enabled, and the conversation stays as it was.
pub proof fn law_an_unread_payload_is_reported(
    state: StateModel,
    fact: FactModel,
    config: ConfigModel,
    report: Seq<char>,
)
    requires
        unread(state, fact) == Some(report),
    ensures
        ({
            let next = stepped(state, fact, config);
            &&& same_conversation(state, next)
            &&& next.phase == CodingPhase::Done
            &&& next.schema_error == Some(report)
            &&& next.assistant == state.assistant
            &&& next.pending_question == state.pending_question
            &&& next.pending_call == if fact.kind == "model.turn"@ {
                None
            } else {
                state.pending_call
            }
            &&& state_view(next).schema_error == Some(report)
            &&& enabled_in(next, config).len() == 0
        }),
{
    lemma_kinds();
}

/// A report is never lost: only a later report takes its place.
pub proof fn law_reports_stay(state: StateModel, fact: FactModel, config: ConfigModel)
    requires
        unread(state, fact) is None,
    ensures
        stepped(state, fact, config).schema_error == state.schema_error,
{
    lemma_kinds();
}

/// An answer to the call that waits lets it run, or ends the turn without it. An
/// answer to another call, or to none, changes nothing.
pub proof fn law_an_answer_decides_on_its_call(
    state: StateModel,
    fact: FactModel,
    config: ConfigModel,
    answer: ConfirmationModel,
)
    requires
        fact.kind == "confirmation.answered"@,
        confirmation_payload(fact.payload) == Ok::<ConfirmationModel, Seq<char>>(answer),
    ensures
        ({
            let next = stepped(state, fact, config);
            &&& same_conversation(state, next)
            &&& next.schema_error == state.schema_error
            &&& match state.pending_call {
                None => next == state,
                Some(call) => if call.id != answer.tool_call_id {
                    next == state
                } else if answer.approved {
                    &&& next.phase == CodingPhase::Tool
                    &&& next.pending_call == Some(call)
                    &&& next.pending_question is None
                    &&& next.assistant == state.assistant
                    &&& enabled_in(next, config) == seq![
                        TransitionModel { key: "tool:"@ + call.id, task: TaskModel::RunTool { call } },
                    ]
                } else {
                    &&& next.phase == CodingPhase::Done
                    &&& next.pending_call is None
                    &&& next.pending_question == state.pending_question
                    &&& next.assistant == Some("denied"@)
                    &&& enabled_in(next, config).len() == 0
                },
            }
        }),
{
    lemma_kinds();
}

/// A denial over the budget ends the turn.
pub proof fn law_a_denial_ends_the_turn(state: StateModel, fact: FactModel, config: ConfigModel)
    requires
        fact.kind == "budget.denied"@,
    ensures
        ({
            let next = stepped(state, fact, config);
            &&& same_conversation(state, next)
            &&& next.phase == CodingPhase::Done
            &&& next.pending_call is None
            &&& next.pending_question == state.pending_question
            &&& next.assistant == Some("budget"@)
            &&& next.schema_error == state.schema_error
            &&& enabled_in(next, config).len() == 0
        }),
{
    lemma_kinds();
}

/// Facts of other kinds change nothing.
pub proof fn law_other_kinds_change_nothing(
    state: StateModel,
    fact: FactModel,
    config: ConfigModel,
)
    requires
        fact.kind != "user.message"@,
        fact.kind != "compaction.done"@,
        fact.kind != "model.turn"@,
        fact.kind != "confirmation.answered"@,
        fact.kind != "tool.result"@,
        fact.kind != "question.answered"@,
        fact.kind != "budget.denied"@,
    ensures
        stepped(state, fact, config) == state,
{
}

/// Only the kind and the payload of a fact count: its number, its key and its cause
/// change nothing.
pub proof fn law_only_kind_and_payload_count(
    state: StateModel,
    fact: FactModel,
    other: FactModel,
    config: ConfigModel,
)
    requires
        fact.kind == other.kind,
        fact.payload == other.payload,
    ensures
        stepped(state, fact, config) == stepped(state, other, config),
{
}

/// A log starts with nothing: no turn, nothing said, nothing that waits.
pub proof fn law_a_log_starts_with_nothing(config: ConfigModel)
    ensures
        ({
            let first = state_of(config, Seq::empty());
            &&& first.turn == 0 && first.cycle == 0 && first.tool_runs == 0
            &&& first.compacted_turn == 0
            &&& first.phase == CodingPhase::Idle
            &&& first.messages.len() == 0 && first.summary.len() == 0
            &&& first.assistant is None
            &&& first.pending_call is None && first.pending_question is None
            &&& first.schema_error is None
            &&& enabled_in(first, config).len() == 0
        }),
{
    lemma_state_of_push(config, Seq::empty());
    assert(state_of(config, Seq::empty()) == first_state());
}

/// A compaction is handed the whole conversation: every message, in order, behind
/// the earlier summary where there is one, and nothing else.
pub proof fn law_a_compaction_gets_everything(state: StateModel, config: ConfigModel)
    requires
        state.phase == CodingPhase::Compact,
    ensures
        ({
            let enabled = enabled_in(state, config);
            let shift: int = if state.summary.len() == 0 {
                0
            } else {
                1
            };
            &&& enabled.len() == 1
            &&& enabled[0].key == "compact:"@ + decimal(state.turn as nat)
            &&& enabled[0].task matches TaskModel::Compact { messages, turn } && {
                &&& turn == state.turn
                &&& messages.len() == state.messages.len() + shift
                &&& forall|i: int|
                    0 <= i < state.messages.len() ==> messages[i + shift]
                        == #[trigger] state.messages[i]
                &&& shift == 1 ==> messages[0] == state.summary
            }
        }),
{
}

/// The model is asked with everything: the configured prompts, the summary and every
/// message, unchanged; all tools, or none once the cap of results is reached; and as
/// often again as attempts are left.
pub proof fn law_the_model_gets_everything(state: StateModel, config: ConfigModel)
    requires
        state.phase == CodingPhase::Infer,
        config.model_attempts >= 1,
    ensures
        ({
            let enabled = enabled_in(state, config);
            &&& enabled.len() == 1
            &&& enabled[0].key == "infer:"@ + decimal(state.turn as nat) + ":"@ + decimal(
                state.cycle as nat,
            )
            &&& enabled[0].task matches TaskModel::Complete { request, retries, turn, cycle } && {
                &&& request.system == config.system
                &&& request.summary == state.summary
                &&& request.messages == state.messages
                &&& config.tool_round_cap is None ==> request.tools == config.tools
                &&& config.tool_round_cap matches Some(cap) ==> (state.tool_runs < cap
                    ==> request.tools == config.tools) && (state.tool_runs >= cap
                    ==> request.tools.len() == 0)
                &&& retries + 1 == config.model_attempts
                &&& turn == state.turn
                &&& cycle == state.cycle
            }
        }),
{
}

/// A call that is to run or to be denied is the one enabled, under a key of its own,
/// with everything that the model said of it.
pub proof fn law_the_call_is_handed_over(state: StateModel, config: ConfigModel, call: ToolCallModel)
    requires
        state.pending_call == Some(call),
    ensures
        state.phase == CodingPhase::Tool ==> enabled_in(state, config) == seq![
            TransitionModel { key: "tool:"@ + call.id, task: TaskModel::RunTool { call } },
        ],
        state.phase == CodingPhase::Deny ==> enabled_in(state, config) == seq![
            TransitionModel {
                key: "budget:"@ + call.id,
                task: TaskModel::Deny { tool_call_id: call.id },
            },
        ],
{
}

/// Where the harness waits, rests or has no call, nothing is enabled.
pub proof fn law_nothing_runs_while_parked(state: StateModel, config: ConfigModel)
    requires
        ({
            ||| state.phase == CodingPhase::Idle
            ||| state.phase == CodingPhase::Confirm
            ||| state.phase == CodingPhase::Question
            ||| state.phase == CodingPhase::Done
            ||| state.phase == CodingPhase::Tool && state.pending_call is None
            ||| state.phase == CodingPhase::Deny && state.pending_call is None
        }),
    ensures
        enabled_in(state, config).len() == 0,
{
}

/// What is shown is what the state holds: a call only while it waits to be
/// confirmed, a question only while it waits to be answered, and words, phase and
/// report as they are. Prompts, tools and limits are not the scheduler's to show.
pub proof fn law_the_view_shows_the_state(state: StateModel)
    ensures
        ({
            let shown: CodingViewModel = state_view(state);
            &&& shown.phase == state.phase
            &&& shown.assistant == state.assistant
            &&& shown.schema_error == state.schema_error
            &&& state.phase == CodingPhase::Question ==> shown.pending_question
                == state.pending_question
            &&& state.phase != CodingPhase::Question ==> shown.pending_question is None
            &&& state.phase != CodingPhase::Confirm ==> shown.pending_confirmation is None
            &&& state.phase == CodingPhase::Confirm ==> match state.pending_call {
                None => shown.pending_confirmation is None,
                Some(call) => shown.pending_confirmation == Some(
                    PendingConfirmationModel {
                        tool_call_id: call.id,
                        name: call.name,
                        args: call.args,
                    },
                ),
            }
            &&& shown.system.len() == 0
            &&& shown.tools.len() == 0
            &&& shown.tool_budget is None
            &&& shown.compact_after_chars is None
        }),
{
}

/// The model asked for this call in this fact.
pub open spec fn asks_for(fact: FactModel, call: ToolCallModel) -> bool {
    fact.kind == "model.turn"@ && decision_payload(fact.payload) == Ok::<DecisionModel, Seq<char>>(
        DecisionModel::Tool { call },
    )
}

/// This fact approves a call of this id.
pub open spec fn approves(fact: FactModel, id: Seq<char>) -> bool {
    fact.kind == "confirmation.answered"@ && confirmation_payload(fact.payload) == Ok::<
        ConfirmationModel,
        Seq<char>,
    >(ConfirmationModel { tool_call_id: id, approved: true })
}

/// The model asked for the call, and nothing was said since.
pub open spec fn asked_at(facts: Seq<FactModel>, call: ToolCallModel, at: int) -> bool {
    &&& 0 <= at < facts.len()
    &&& asks_for(facts[at], call)
    &&& forall|k: int|
        at < k < facts.len() ==> line_of(#[trigger] facts[k]) is None
            && !(facts[k].kind == "model.turn"@)
}

/// The call was approved behind the fact that asked for it.
pub open spec fn approved_behind(facts: Seq<FactModel>, id: Seq<char>, at: int) -> bool {
    exists|k: int| at < k < facts.len() && approves(#[trigger] facts[k], id)
}

/// A call that is held was asked for by the last decision of the model, and one that
/// is to run although it needs a confirmation has been approved since.
proof fn lemma_calls_were_asked_for(config: ConfigModel, facts: Seq<FactModel>)
    ensures
        state_of(config, facts).pending_call matches Some(call) ==> exists|at: int| #[trigger]
            asked_at(facts, call, at) && (state_of(config, facts).phase == CodingPhase::Tool
                && call.needs_confirmation ==> approved_behind(facts, call.id, at)),
    decreases facts.len(),
{
    lemma_kinds();
    lemma_state_of_push(config, facts);
    if facts.len() == 0 {
        assert(facts =~= Seq::empty());
    } else {
        let rest = facts.drop_last();
        let last = facts.last();
        let n = facts.len() - 1;
        let state = state_of(config, rest);
        let next = state_of(config, facts);
        lemma_calls_were_asked_for(config, rest);
        if let Some(call) = next.pending_call {
            if last.kind == "model.turn"@ {
                assert(asked_at(facts, call, n));
            } else {
                assert(state.pending_call == Some(call));
                let at = choose|at: int| #[trigger]
                    asked_at(rest, call, at) && (state.phase == CodingPhase::Tool
                        && call.needs_confirmation ==> approved_behind(rest, call.id, at));
                assert(asked_at(rest, call, at));
                assert(line_of(last) is None);
                assert forall|k: int| at < k < facts.len() implies line_of(
                    #[trigger] facts[k],
                ) is None && !(facts[k].kind == "model.turn"@) by {
                    if k < n {
                        assert(rest[k] == facts[k]);
                    }
                }
                assert(facts[at] == rest[at]);
                assert(asked_at(facts, call, at));
                if next.phase == CodingPhase::Tool && call.needs_confirmation {
                    if state.phase == CodingPhase::Tool {
                        let k = choose|k: int|
                            at < k < rest.len() && approves(#[trigger] rest[k], call.id);
                        assert(approves(facts[k], call.id));
                    } else {
                        assert(approves(facts[n], call.id));
                    }
                }
            }
        }
    }
}

/// No tool runs unasked or unconfirmed: a call that is enabled was asked for by the
/// last decision of the model, nothing was said since, and where it needs a
/// confirmation a later fact approves its id.
pub proof fn law_no_call_runs_unconfirmed(
    config: ConfigModel,
    facts: Seq<FactModel>,
    call: ToolCallModel,
    at: int,
)
    requires
        0 <= at < enabled_in(state_of(config, facts), config).len(),
        enabled_in(state_of(config, facts), config)[at].task == (TaskModel::RunTool { call }),
    ensures
        exists|asked: int| #[trigger]
            asked_at(facts, call, asked) && (call.needs_confirmation ==> approved_behind(
                facts,
                call.id,
                asked,
            )),
{
    lemma_calls_were_asked_for(config, facts);
}

} // verus!
