//! What holds of every log that the scheduler is folded over.

use vstd::prelude::*;

use crate::coding::{CodingPhase, ConfigModel, ToolSpecModel};
use crate::fact::FactModel;
use crate::payload::{confirmation_payload, decision_payload, summary_payload, text_payload,
    tool_result_payload, ConfirmationModel, DecisionModel};
use crate::scheduler::{compact_key, countable, enabled_in, infer_key, lemma_state_of_push,
    needs_compaction, request_of, state_of, stepped, StateModel, TaskModel};
use crate::text::{decimal, lemma_decimal_digits, lemma_decimal_injective, lemma_mark_splits};

verus! {

/// The kinds of facts that the scheduler folds are different.
pub proof fn lemma_kinds()
    ensures
        "user.message"@ != "compaction.done"@,
        "user.message"@ != "model.turn"@,
        "user.message"@ != "confirmation.answered"@,
        "user.message"@ != "tool.result"@,
        "user.message"@ != "question.answered"@,
        "user.message"@ != "budget.denied"@,
        "compaction.done"@ != "model.turn"@,
        "compaction.done"@ != "confirmation.answered"@,
        "compaction.done"@ != "tool.result"@,
        "compaction.done"@ != "question.answered"@,
        "compaction.done"@ != "budget.denied"@,
        "model.turn"@ != "confirmation.answered"@,
        "model.turn"@ != "tool.result"@,
        "model.turn"@ != "question.answered"@,
        "model.turn"@ != "budget.denied"@,
        "confirmation.answered"@ != "tool.result"@,
        "confirmation.answered"@ != "question.answered"@,
        "confirmation.answered"@ != "budget.denied"@,
        "tool.result"@ != "question.answered"@,
        "tool.result"@ != "budget.denied"@,
        "question.answered"@ != "budget.denied"@,
{
    reveal_strlit("user.message");
    reveal_strlit("compaction.done");
    reveal_strlit("model.turn");
    reveal_strlit("confirmation.answered");
    reveal_strlit("tool.result");
    reveal_strlit("question.answered");
    reveal_strlit("budget.denied");
    assert("user.message"@[0] == 'u');
    assert("compaction.done"@[0] == 'c' && "compaction.done"@[2] == 'm');
    assert("model.turn"@[0] == 'm');
    assert("confirmation.answered"@[0] == 'c' && "confirmation.answered"@[2] == 'n');
    assert("tool.result"@[0] == 't');
    assert("question.answered"@[0] == 'q');
    assert("budget.denied"@[0] == 'b');
}

/// A state whose phase has what it needs: a call to run, confirm or deny; a
/// question to answer; a conversation that this turn has not compacted.
pub open spec fn coherent(state: StateModel) -> bool {
    &&& state.phase == CodingPhase::Tool || state.phase == CodingPhase::Confirm || state.phase
        == CodingPhase::Deny ==> state.pending_call is Some
    &&& state.phase == CodingPhase::Question ==> state.pending_question is Some
    &&& state.phase == CodingPhase::Compact ==> state.compacted_turn != state.turn
}

/// Every fact leads from a coherent state to a coherent state.
pub proof fn law_step_keeps_coherence(state: StateModel, fact: FactModel, config: ConfigModel)
    requires
        coherent(state),
    ensures
        coherent(stepped(state, fact, config)),
{
}

/// The state behind every log is coherent.
pub proof fn law_every_log_is_coherent(config: ConfigModel, facts: Seq<FactModel>)
    ensures
        coherent(state_of(config, facts)),
    decreases facts.len(),
{
    lemma_state_of_push(config, facts);
    if facts.len() > 0 {
        law_every_log_is_coherent(config, facts.drop_last());
        law_step_keeps_coherence(
            state_of(config, facts.drop_last()),
            facts.last(),
            config,
        );
    } else {
        assert(facts =~= Seq::empty());
    }
}

/// A phase that waits for a caller, or for nothing.
pub open spec fn parked(phase: CodingPhase) -> bool {
    phase == CodingPhase::Idle || phase == CodingPhase::Confirm || phase == CodingPhase::Question
        || phase == CodingPhase::Done
}

/// A parked log enables nothing; every other log enables one transition.
pub proof fn law_parked_or_one_transition(config: ConfigModel, facts: Seq<FactModel>)
    ensures
        enabled_in(state_of(config, facts), config).len() == if parked(
            state_of(config, facts).phase,
        ) {
            0nat
        } else {
            1nat
        },
{
    law_every_log_is_coherent(config, facts);
}

/// A turn that was compacted is not compacted again: only a message of the user
/// starts another turn.
pub proof fn law_compacted_once_in_a_turn(state: StateModel, fact: FactModel, config: ConfigModel)
    requires
        coherent(state),
        state.compacted_turn == state.turn,
        fact.kind != "user.message"@,
    ensures
        stepped(state, fact, config).phase != CodingPhase::Compact,
        stepped(state, fact, config).compacted_turn == stepped(state, fact, config).turn,
{
}

/// A compaction puts its summary in place of the messages and asks the model.
pub proof fn law_compaction_replaces_messages(
    state: StateModel,
    fact: FactModel,
    config: ConfigModel,
    summary: Seq<char>,
)
    requires
        fact.kind == "compaction.done"@,
        summary_payload(fact.payload) == Ok::<Seq<char>, Seq<char>>(summary),
    ensures
        stepped(state, fact, config).summary == summary,
        stepped(state, fact, config).messages.len() == 0,
        stepped(state, fact, config).phase == CodingPhase::Infer,
{
    lemma_kinds();
}

/// Messages are kept until a compaction.
pub proof fn law_messages_are_kept(state: StateModel, fact: FactModel, config: ConfigModel)
    requires
        fact.kind != "compaction.done"@,
    ensures
        state.messages.is_prefix_of(stepped(state, fact, config).messages),
        stepped(state, fact, config).summary == state.summary,
{
    let next = stepped(state, fact, config).messages;
    assert(state.messages =~= next.subrange(0, state.messages.len() as int));
}

/// The tools that ran are within the budget, and a call that runs or waits to be
/// confirmed has budget left.
pub open spec fn budgeted(state: StateModel, config: ConfigModel) -> bool {
    &&& state.tool_runs <= config.budget
    &&& state.phase == CodingPhase::Tool || state.phase == CodingPhase::Confirm ==> state.tool_runs
        < config.budget
}

/// A fact that arrives when it is due: a result while a tool runs, an answer while
/// a confirmation waits.
pub open spec fn due(state: StateModel, fact: FactModel) -> bool {
    &&& fact.kind == "tool.result"@ ==> state.phase == CodingPhase::Tool
    &&& fact.kind == "confirmation.answered"@ ==> state.phase == CodingPhase::Confirm
}

/// Facts that arrive when they are due never lead over the budget.
pub proof fn law_step_keeps_the_budget(state: StateModel, fact: FactModel, config: ConfigModel)
    requires
        budgeted(state, config),
        due(state, fact),
    ensures
        budgeted(stepped(state, fact, config), config),
{
    lemma_kinds();
}

/// A log whose facts arrived when they were due is within the budget.
pub proof fn law_log_keeps_the_budget(config: ConfigModel, facts: Seq<FactModel>)
    requires
        forall|i: int|
            0 <= i < facts.len() ==> due(state_of(config, facts.take(i)), #[trigger] facts[i]),
    ensures
        budgeted(state_of(config, facts), config),
    decreases facts.len(),
{
    lemma_state_of_push(config, facts);
    if facts.len() > 0 {
        let rest = facts.drop_last();
        assert forall|i: int| 0 <= i < rest.len() implies due(
            state_of(config, rest.take(i)),
            #[trigger] rest[i],
        ) by {
            assert(rest.take(i) =~= facts.take(i));
            assert(rest[i] == facts[i]);
        }
        law_log_keeps_the_budget(config, rest);
        assert(facts.take(facts.len() - 1) =~= rest);
        assert(due(state_of(config, facts.take(facts.len() - 1)), facts[facts.len() - 1]));
        law_step_keeps_the_budget(state_of(config, rest), facts.last(), config);
    } else {
        assert(facts =~= Seq::empty());
    }
}

/// A call over the budget is denied, whether or not it would need a confirmation.
pub proof fn law_calls_over_the_budget_are_denied(
    state: StateModel,
    fact: FactModel,
    config: ConfigModel,
)
    requires
        fact.kind == "model.turn"@,
        decision_payload(fact.payload) matches Ok(DecisionModel::Tool { .. }),
        state.tool_runs >= config.budget,
    ensures
        stepped(state, fact, config).phase == CodingPhase::Deny,
{
    lemma_kinds();
}

/// Once the cap of tool results is reached, the model sees no tools; before, and
/// without a cap, it sees them all.
pub proof fn law_cap_hides_the_tools(state: StateModel, config: ConfigModel)
    ensures
        request_of(state, config).tools == if config.tool_round_cap matches Some(cap)
            && state.tool_runs >= cap {
            Seq::<ToolSpecModel>::empty()
        } else {
            config.tools
        },
{
}

/// Approving the call that waits enables exactly that call.
pub proof fn law_approval_enables_the_call(
    state: StateModel,
    fact: FactModel,
    config: ConfigModel,
    answer: ConfirmationModel,
)
    requires
        coherent(state),
        state.phase == CodingPhase::Confirm,
        fact.kind == "confirmation.answered"@,
        confirmation_payload(fact.payload) == Ok::<ConfirmationModel, Seq<char>>(answer),
        answer.tool_call_id == state.pending_call->Some_0.id,
        answer.approved,
    ensures
        enabled_in(stepped(state, fact, config), config).len() == 1,
        enabled_in(stepped(state, fact, config), config)[0].task == (TaskModel::RunTool {
            call: state.pending_call->Some_0,
        }),
{
    lemma_kinds();
}

/// Denying the call that waits ends the turn: the call does not run.
pub proof fn law_denial_ends_the_turn(
    state: StateModel,
    fact: FactModel,
    config: ConfigModel,
    answer: ConfirmationModel,
)
    requires
        coherent(state),
        state.phase == CodingPhase::Confirm,
        fact.kind == "confirmation.answered"@,
        confirmation_payload(fact.payload) == Ok::<ConfirmationModel, Seq<char>>(answer),
        answer.tool_call_id == state.pending_call->Some_0.id,
        !answer.approved,
    ensures
        stepped(state, fact, config).phase == CodingPhase::Done,
        stepped(state, fact, config).assistant == Some("denied"@),
        enabled_in(stepped(state, fact, config), config).len() == 0,
{
    lemma_kinds();
}

/// An answer to another call changes nothing.
pub proof fn law_other_answers_are_ignored(
    state: StateModel,
    fact: FactModel,
    config: ConfigModel,
    answer: ConfirmationModel,
)
    requires
        fact.kind == "confirmation.answered"@,
        confirmation_payload(fact.payload) == Ok::<ConfirmationModel, Seq<char>>(answer),
        state.pending_call matches Some(call) ==> call.id != answer.tool_call_id,
    ensures
        stepped(state, fact, config) == state,
{
    lemma_kinds();
}

/// A message, an answer to a question and the result of a tool go on: the
/// conversation is compacted where it has grown too long, and else the model is
/// asked.
pub proof fn law_inputs_go_on(state: StateModel, fact: FactModel, config: ConfigModel)
    requires
        ({
            ||| fact.kind == "user.message"@ && text_payload(fact.payload) is Ok
            ||| fact.kind == "question.answered"@ && text_payload(fact.payload) is Ok
            ||| fact.kind == "tool.result"@ && tool_result_payload(fact.payload) is Ok
        }),
    ensures
        stepped(state, fact, config).phase == if needs_compaction(
            stepped(state, fact, config),
            config,
        ) {
            CodingPhase::Compact
        } else {
            CodingPhase::Infer
        },
        enabled_in(stepped(state, fact, config), config).len() == 1,
        stepped(state, fact, config).messages.len() == state.messages.len() + 1,
{
    lemma_kinds();
}

/// A decision of the model ends the question to the model: it is not asked the
/// same again.
pub proof fn law_decision_leaves_inference(state: StateModel, fact: FactModel, config: ConfigModel)
    requires
        fact.kind == "model.turn"@,
    ensures
        stepped(state, fact, config).phase != CodingPhase::Infer,
        stepped(state, fact, config).phase != CodingPhase::Compact,
        stepped(state, fact, config).turn == state.turn,
        stepped(state, fact, config).cycle == state.cycle,
{
    lemma_kinds();
}

/// Every cycle of every turn asks the model under a key of its own.
pub proof fn law_infer_keys_differ(turn: u64, cycle: u64, other_turn: u64, other_cycle: u64)
    requires
        infer_key(turn, cycle) == infer_key(other_turn, other_cycle),
    ensures
        turn == other_turn,
        cycle == other_cycle,
{
    reveal_strlit("infer:");
    reveal_strlit(":");
    let a = decimal(turn as nat);
    let b = decimal(cycle as nat);
    let c = decimal(other_turn as nat);
    let d = decimal(other_cycle as nat);
    assert(":"@ =~= seq![':']);
    lemma_decimal_digits(turn as nat);
    lemma_decimal_digits(other_turn as nat);
    assert(infer_key(turn, cycle).skip(6) =~= a + seq![':'] + b);
    assert(infer_key(other_turn, other_cycle).skip(6) =~= c + seq![':'] + d);
    lemma_mark_splits(a, b, c, d, ':');
    lemma_decimal_injective(turn as nat, other_turn as nat);
    lemma_decimal_injective(cycle as nat, other_cycle as nat);
}

/// Every turn is compacted under a key of its own.
pub proof fn law_compact_keys_differ(turn: u64, other: u64)
    requires
        compact_key(turn) == compact_key(other),
    ensures
        turn == other,
{
    let head = "compact:"@;
    assert(compact_key(turn).skip(head.len() as int) =~= decimal(turn as nat));
    assert(compact_key(other).skip(head.len() as int) =~= decimal(other as nat));
    lemma_decimal_injective(turn as nat, other as nat);
}

/// Work of different kinds has different keys.
pub proof fn law_keys_tell_the_work(
    turn: u64,
    cycle: u64,
    other_turn: u64,
    id: Seq<char>,
    other_id: Seq<char>,
)
    ensures
        compact_key(other_turn) != infer_key(turn, cycle),
        compact_key(other_turn) != "tool:"@ + id,
        compact_key(other_turn) != "budget:"@ + id,
        infer_key(turn, cycle) != "tool:"@ + id,
        infer_key(turn, cycle) != "budget:"@ + id,
        "tool:"@ + id != "budget:"@ + other_id,
{
    reveal_strlit("compact:");
    reveal_strlit("infer:");
    reveal_strlit("tool:");
    reveal_strlit("budget:");
    assert(compact_key(other_turn)[0] == 'c');
    assert(infer_key(turn, cycle)[0] == 'i');
    assert(("tool:"@ + id)[0] == 't');
    assert(("budget:"@ + id)[0] == 'b');
    assert(("budget:"@ + other_id)[0] == 'b');
}

/// The counters have room for every fact of the log.
pub open spec fn fits(config: ConfigModel, facts: Seq<FactModel>) -> bool {
    forall|i: int|
        0 <= i < facts.len() ==> countable(state_of(config, facts.take(i)), #[trigger] facts[i])
}

/// The counters count at most one up for each fact.
proof fn lemma_counters(config: ConfigModel, facts: Seq<FactModel>)
    requires
        facts.len() <= u32::MAX,
    ensures
        state_of(config, facts).turn <= facts.len(),
        state_of(config, facts).cycle <= facts.len(),
        state_of(config, facts).tool_runs <= facts.len(),
    decreases facts.len(),
{
    lemma_state_of_push(config, facts);
    if facts.len() > 0 {
        lemma_counters(config, facts.drop_last());
    } else {
        assert(facts =~= Seq::empty());
    }
}

/// A log that is not longer than a 32-bit counter reaches fits.
pub proof fn law_short_logs_fit(config: ConfigModel, facts: Seq<FactModel>)
    requires
        facts.len() <= u32::MAX,
    ensures
        fits(config, facts),
{
    assert forall|i: int| 0 <= i < facts.len() implies countable(
        state_of(config, facts.take(i)),
        #[trigger] facts[i],
    ) by {
        lemma_counters(config, facts.take(i));
    }
}

} // verus!
