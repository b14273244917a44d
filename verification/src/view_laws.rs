//! What the harness shows, and what stands for the parts of a recipe.

use vstd::prelude::*;

use crate::actor::mount::namespaced_key;
use crate::actor::{caused, joined, shown_by, Actor, ErasedComponent, Transition};
use crate::coding::{confirm_members, harness_answers, harness_view, harness_work, is_harness,
    is_scheduler, is_slot, merged_view, output_text, result_members, view_models, CodingPhase, CodingView,
    CodingViewModel, ConfigModel, PendingConfirmationModel, PendingQuestionModel};
use crate::compose::{follows_recipe, is_composed, resolved, shows_inferred, stands_for,
    HarnessPartId, RecipeModel};
use crate::error::ActorError;
use crate::fact::{said, Fact, FactModel};
use crate::json::JsonModel;
use crate::json_text::json_printed;
use crate::scheduler::{enabled_in, state_of, transition_models, CodingTask};

verus! {

/// Prompts and tools are all shown, those of one view behind those of the views
/// before it. No views show nothing.
pub proof fn law_prompts_and_tools_are_all_shown(
    views: Seq<CodingViewModel>,
    view: CodingViewModel,
)
    ensures
        merged_view(Seq::empty()).system.len() == 0,
        merged_view(Seq::empty()).tools.len() == 0,
        merged_view(views.push(view)).system == merged_view(views).system + view.system,
        merged_view(views.push(view)).tools == merged_view(views).tools + view.tools,
{
    assert(views.push(view).drop_last() =~= views);
}

/// The first call that waits is the one shown; none where no view has one.
pub proof fn law_the_first_waiting_call_is_shown(
    views: Seq<CodingViewModel>,
    at: int,
    pending: PendingConfirmationModel,
)
    ensures
        0 <= at < views.len() && views[at].pending_confirmation == Some(pending) && (forall|i: int|
            0 <= i < at ==> (#[trigger] views[i]).pending_confirmation is None) ==> merged_view(
            views,
        ).pending_confirmation == Some(pending),
        (forall|i: int| 0 <= i < views.len() ==> (#[trigger] views[i]).pending_confirmation is None)
            ==> merged_view(views).pending_confirmation is None,
    decreases views.len(),
{
    if views.len() > 0 {
        let rest = views.drop_last();
        assert(forall|i: int| 0 <= i < rest.len() ==> #[trigger] rest[i] == views[i]);
        law_the_first_waiting_call_is_shown(rest, at, pending);
    }
}

/// The first question that waits is the one shown; none where no view has one.
pub proof fn law_the_first_question_is_shown(
    views: Seq<CodingViewModel>,
    at: int,
    pending: PendingQuestionModel,
)
    ensures
        0 <= at < views.len() && views[at].pending_question == Some(pending) && (forall|i: int|
            0 <= i < at ==> (#[trigger] views[i]).pending_question is None) ==> merged_view(
            views,
        ).pending_question == Some(pending),
        (forall|i: int| 0 <= i < views.len() ==> (#[trigger] views[i]).pending_question is None)
            ==> merged_view(views).pending_question is None,
    decreases views.len(),
{
    if views.len() > 0 {
        let rest = views.drop_last();
        assert(forall|i: int| 0 <= i < rest.len() ==> #[trigger] rest[i] == views[i]);
        law_the_first_question_is_shown(rest, at, pending);
    }
}

/// The first report is the one shown; none where no view has one.
pub proof fn law_the_first_report_is_shown(
    views: Seq<CodingViewModel>,
    at: int,
    report: Seq<char>,
)
    ensures
        0 <= at < views.len() && views[at].schema_error == Some(report) && (forall|i: int|
            0 <= i < at ==> (#[trigger] views[i]).schema_error is None) ==> merged_view(
            views,
        ).schema_error == Some(report),
        (forall|i: int| 0 <= i < views.len() ==> (#[trigger] views[i]).schema_error is None)
            ==> merged_view(views).schema_error is None,
    decreases views.len(),
{
    if views.len() > 0 {
        let rest = views.drop_last();
        assert(forall|i: int| 0 <= i < rest.len() ==> #[trigger] rest[i] == views[i]);
        law_the_first_report_is_shown(rest, at, report);
    }
}

/// The first limits are the ones shown; none where no view has any.
pub proof fn law_the_first_limits_are_shown(
    views: Seq<CodingViewModel>,
    at: int,
    budget: u32,
    size: usize,
)
    ensures
        0 <= at < views.len() && views[at].tool_budget == Some(budget) && (forall|i: int|
            0 <= i < at ==> (#[trigger] views[i]).tool_budget is None) ==> merged_view(
            views,
        ).tool_budget == Some(budget),
        0 <= at < views.len() && views[at].compact_after_chars == Some(size) && (forall|i: int|
            0 <= i < at ==> (#[trigger] views[i]).compact_after_chars is None) ==> merged_view(
            views,
        ).compact_after_chars == Some(size),
        (forall|i: int| 0 <= i < views.len() ==> (#[trigger] views[i]).tool_budget is None)
            ==> merged_view(views).tool_budget is None,
        (forall|i: int| 0 <= i < views.len() ==> (#[trigger] views[i]).compact_after_chars is None)
            ==> merged_view(views).compact_after_chars is None,
    decreases views.len(),
{
    if views.len() > 0 {
        let rest = views.drop_last();
        assert(forall|i: int| 0 <= i < rest.len() ==> #[trigger] rest[i] == views[i]);
        law_the_first_limits_are_shown(rest, at, budget, size);
    }
}

/// The last words of the assistant are the ones shown; none where no view has any.
pub proof fn law_the_last_words_are_shown(views: Seq<CodingViewModel>, at: int, words: Seq<char>)
    ensures
        0 <= at < views.len() && views[at].assistant == Some(words) && (forall|i: int|
            at < i < views.len() ==> (#[trigger] views[i]).assistant is None) ==> merged_view(
            views,
        ).assistant == Some(words),
        (forall|i: int| 0 <= i < views.len() ==> (#[trigger] views[i]).assistant is None)
            ==> merged_view(views).assistant is None,
    decreases views.len(),
{
    if views.len() > 0 {
        let rest = views.drop_last();
        assert(forall|i: int| 0 <= i < rest.len() ==> #[trigger] rest[i] == views[i]);
        law_the_last_words_are_shown(rest, at, words);
        assert(views.last() == views[views.len() - 1]);
    }
}

/// The last phase that is not idle is the one shown; idle where no view has another.
pub proof fn law_the_last_phase_is_shown(views: Seq<CodingViewModel>, at: int)
    ensures
        0 <= at < views.len() && views[at].phase != CodingPhase::Idle && (forall|i: int|
            at < i < views.len() ==> (#[trigger] views[i]).phase == CodingPhase::Idle)
            ==> merged_view(views).phase == views[at].phase,
        (forall|i: int| 0 <= i < views.len() ==> (#[trigger] views[i]).phase == CodingPhase::Idle)
            ==> merged_view(views).phase == CodingPhase::Idle,
    decreases views.len(),
{
    if views.len() > 0 {
        let rest = views.drop_last();
        assert(forall|i: int| 0 <= i < rest.len() ==> #[trigger] rest[i] == views[i]);
        law_the_last_phase_is_shown(rest, at);
        assert(views.last() == views[views.len() - 1]);
    }
}

/// The harness shows its configured prompts and tools, and of everything else what
/// its state behind the log shows; it leaves the limits to others.
pub proof fn law_the_harness_shows_its_configuration(config: ConfigModel, facts: Seq<FactModel>)
    ensures
        ({
            let shown = harness_view(config, facts);
            let state = state_of(config, facts);
            &&& shown.system == config.system
            &&& shown.tools == config.tools
            &&& shown.phase == state.phase
            &&& shown.assistant == state.assistant
            &&& shown.schema_error == state.schema_error
            &&& state.phase == CodingPhase::Question ==> shown.pending_question
                == state.pending_question
            &&& state.phase != CodingPhase::Question ==> shown.pending_question is None
            &&& state.phase != CodingPhase::Confirm ==> shown.pending_confirmation is None
            &&& state.phase == CodingPhase::Confirm && state.pending_call is Some
                ==> shown.pending_confirmation == Some(
                PendingConfirmationModel {
                    tool_call_id: state.pending_call->Some_0.id,
                    name: state.pending_call->Some_0.name,
                    args: state.pending_call->Some_0.args,
                },
            )
            &&& shown.tool_budget is None
            &&& shown.compact_after_chars is None
        }),
{
}

/// The harness does what its state enables, once: work whose key is a cause in the
/// log is not done again, and all other work is.
pub proof fn law_the_harness_does_what_is_left(config: ConfigModel, facts: Seq<FactModel>)
    ensures
        ({
            let enabled = enabled_in(state_of(config, facts), config);
            let work = harness_work(config, facts);
            &&& enabled.len() == 0 ==> work.len() == 0
            &&& enabled.len() > 0 && caused(facts, enabled[0].key) ==> work.len() == 0
            &&& enabled.len() > 0 && !caused(facts, enabled[0].key) ==> work == enabled
        }),
{
}

/// The harness answers every log with its view and with the work that is left.
pub proof fn law_the_harness_answers(
    actor: Actor<CodingTask, CodingView>,
    config: ConfigModel,
    facts: Seq<Fact>,
    views: Seq<CodingView>,
    lists: Seq<Seq<Transition<CodingTask>>>,
    answer: Result<(CodingView, Vec<Transition<CodingTask>>), ActorError>,
)
    requires
        is_harness(actor, config),
        actor.answers(facts, views, lists, answer),
    ensures
        answer matches Ok(shown) && shown.0@ == harness_view(config, said(facts))
            && transition_models(shown.1@) == harness_work(config, said(facts)),
{
    assert(harness_answers(config, said(facts), answer));
}

/// What a tool put out is handed on: a text as it is, anything else as its JSON.
pub proof fn law_outputs_are_handed_on(output: JsonModel, text: Seq<char>)
    ensures
        output_text(JsonModel::Text(text)) == text,
        !(output is Text) ==> output_text(output) == json_printed(output),
{
}

/// A view that shows prompts, tools, a budget and a threshold, and nothing else.
pub open spec fn shows_only(
    view: CodingViewModel,
    system: Seq<Seq<char>>,
    tools: Seq<crate::coding::ToolSpecModel>,
    budget: Option<u32>,
    size: Option<usize>,
) -> bool {
    &&& view.system == system
    &&& view.tools == tools
    &&& view.tool_budget == budget
    &&& view.compact_after_chars == size
    &&& view.pending_confirmation is None
    &&& view.pending_question is None
    &&& view.assistant is None
    &&& view.phase == CodingPhase::Idle
    &&& view.schema_error is None
}

/// Each part of a recipe shows its own setting and enables nothing; the part that
/// infers is a component of the scheduler's maker.
pub proof fn law_parts_show_their_settings<F: Fn() -> ErasedComponent<CodingTask, CodingView>>(
    made: ErasedComponent<CodingTask, CodingView>,
    part: HarnessPartId,
    recipe: RecipeModel,
    make_scheduler: F,
    facts: Seq<Fact>,
    view: CodingView,
    enabled: Seq<Transition<CodingTask>>,
)
    requires
        stands_for(made, part, recipe, make_scheduler),
        made.shows(facts, view, enabled),
    ensures
        part == HarnessPartId::System ==> shows_only(
            view@,
            recipe.system,
            Seq::empty(),
            None,
            None,
        ) && enabled.len() == 0,
        part == HarnessPartId::Tools ==> shows_only(
            view@,
            Seq::empty(),
            recipe.tools,
            None,
            None,
        ) && enabled.len() == 0,
        part == HarnessPartId::Budget ==> shows_only(
            view@,
            Seq::empty(),
            Seq::empty(),
            Some(recipe.budget),
            None,
        ) && enabled.len() == 0,
        part == HarnessPartId::Compact ==> shows_only(
            view@,
            Seq::empty(),
            Seq::empty(),
            None,
            Some(recipe.compact_after_chars),
        ) && enabled.len() == 0,
        part == HarnessPartId::Infer ==> make_scheduler.ensures((), made),
{
}

/// A recipe means its parts in their order; without any it means the stock tree:
/// prompts, tools, budget, threshold and scheduler.
pub proof fn law_recipes_mean_their_parts(parts: Seq<HarnessPartId>)
    ensures
        parts.len() > 0 ==> resolved(parts) == parts,
        parts.len() == 0 ==> resolved(parts).len() == 5 && resolved(parts)[0]
            == HarnessPartId::System && resolved(parts)[1] == HarnessPartId::Tools && resolved(
            parts,
        )[2] == HarnessPartId::Budget && resolved(parts)[3] == HarnessPartId::Compact && resolved(
            parts,
        )[4] == HarnessPartId::Infer,
{
}

/// A harness made from a recipe has the recipe's name and one component for each
/// part, in order, and merges what they show.
pub proof fn law_recipes_are_followed<F: Fn() -> ErasedComponent<CodingTask, CodingView>>(
    actor: Actor<CodingTask, CodingView>,
    recipe: RecipeModel,
    make_scheduler: F,
    at: int,
    views: Seq<CodingView>,
    view: CodingView,
)
    requires
        follows_recipe(actor, recipe, make_scheduler),
    ensures
        actor.named() == recipe.name,
        recipe.parts.len() > 0 ==> actor.parts().len() == recipe.parts.len(),
        recipe.parts.len() == 0 ==> actor.parts().len() == 5,
        0 <= at < recipe.parts.len() ==> stands_for(
            actor.parts()[at],
            recipe.parts[at],
            recipe,
            make_scheduler,
        ),
        actor.merging().merges(views, view) ==> view@ == merged_view(view_models(views)),
{
    assert(is_composed(actor, actor.parts()));
    if 0 <= at < recipe.parts.len() {
        assert(stands_for(actor.parts()[at], resolved(recipe.parts)[at], recipe, make_scheduler));
    }
}

/// The scheduler shows and enables what its state behind the log shows and enables.
pub proof fn law_the_scheduler_follows_the_log(
    made: ErasedComponent<CodingTask, CodingView>,
    config: ConfigModel,
    facts: Seq<Fact>,
    view: CodingView,
    enabled: Seq<Transition<CodingTask>>,
)
    requires
        is_scheduler(made, config),
        made.shows(facts, view, enabled),
    ensures
        view@.phase == state_of(config, said(facts)).phase,
        view@.assistant == state_of(config, said(facts)).assistant,
        view@.schema_error == state_of(config, said(facts)).schema_error,
        view@ == crate::scheduler::state_view(state_of(config, said(facts))),
        transition_models(enabled) == enabled_in(state_of(config, said(facts)), config),
{
}

/// A component that always shows the same shows it on every log, and enables
/// nothing.
pub proof fn law_slots_show_the_same(
    made: ErasedComponent<CodingTask, CodingView>,
    shown: CodingViewModel,
    facts: Seq<Fact>,
    view: CodingView,
    enabled: Seq<Transition<CodingTask>>,
)
    requires
        is_slot(made, shown),
    ensures
        made.accepts(facts),
        made.shows(facts, view, enabled) ==> view@ == shown && enabled.len() == 0,
{
}

/// Components under `infer` enable all that they enable, in order, each key with the
/// prefix in front, and show their merged views.
pub proof fn law_inferred_keys_carry_the_prefix(
    children: Seq<ErasedComponent<CodingTask, CodingView>>,
    facts: Seq<Fact>,
    view: CodingView,
    enabled: Seq<Transition<CodingTask>>,
)
    requires
        shows_inferred(children, facts, view, enabled),
    ensures
        exists|views: Seq<CodingView>, lists: Seq<Seq<Transition<CodingTask>>>| #[trigger]
            shown_by(children, facts, views, lists) && view@ == merged_view(view_models(views))
                && enabled.len() == joined(lists).len() && (forall|i: int|
                0 <= i < enabled.len() ==> (#[trigger] enabled[i]).key@ == "infer"@ + "/"@ + joined(
                    lists,
                )[i].key@ && enabled[i].run == joined(lists)[i].run),
{
    let (views, lists) = choose|views: Seq<CodingView>, lists: Seq<Seq<Transition<CodingTask>>>|
        #[trigger] shown_by(children, facts, views, lists) && view@ == merged_view(
            view_models(views),
        ) && crate::actor::mount::namespaced("infer"@, joined(lists), enabled);
    reveal_strlit("infer");
    let prefix = "infer"@;
    assert(prefix[0] == 'i' && prefix.last() == 'r');
    assert(crate::actor::mount::trimmed(prefix) == prefix);
    assert forall|i: int| 0 <= i < enabled.len() implies (#[trigger] enabled[i]).key@ == "infer"@
        + "/"@ + joined(lists)[i].key@ && enabled[i].run == joined(lists)[i].run by {
        assert(enabled[i].key@ == namespaced_key("infer"@, joined(lists)[i].key@));
    }
    assert(shown_by(children, facts, views, lists));
}

/// The result of a tool is written with the id of its call, as a success, and with
/// what the tool put out; an answer to a confirmation with the id of the call and the
/// approval.
pub proof fn law_results_and_answers_are_written_whole(
    id: Seq<char>,
    output: Seq<char>,
    approved: bool,
)
    ensures
        ({
            let result = result_members(id, output);
            &&& result.len() == 3
            &&& result[0].name == "toolCallId"@ && result[0].value == JsonModel::Text(id)
            &&& result[1].name == "ok"@ && result[1].value == JsonModel::Bool(true)
            &&& result[2].name == "output"@ && result[2].value == JsonModel::Text(output)
        }),
        ({
            let answer = confirm_members(id, approved);
            &&& answer.len() == 2
            &&& answer[0].name == "tool_call_id"@ && answer[0].value == JsonModel::Text(id)
            &&& answer[1].name == "approved"@ && answer[1].value == JsonModel::Bool(approved)
        }),
{
}

/// A composed actor asks each of its components, in the order in which they were
/// given, and shows what their views come to together.
pub proof fn law_composed_actors_ask_their_parts(
    actor: Actor<CodingTask, CodingView>,
    parts: Seq<ErasedComponent<CodingTask, CodingView>>,
    facts: Seq<Fact>,
    views: Seq<CodingView>,
    lists: Seq<Seq<Transition<CodingTask>>>,
    shown: (CodingView, Vec<Transition<CodingTask>>),
)
    requires
        is_composed(actor, parts),
        actor.answers(facts, views, lists, Ok(shown)),
    ensures
        views.len() == parts.len(),
        lists.len() == parts.len(),
        forall|i: int|
            0 <= i < parts.len() ==> (#[trigger] parts[i]).shows(facts, views[i], lists[i]),
        shown.0@ == merged_view(view_models(views)),
{
}

} // verus!
