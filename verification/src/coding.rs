//! The coding harness: its configuration, what it shows, and the facts that its
//! callers append.

use vstd::prelude::*;

use crate::actor::{answers_alike, caused, component, first_repeat, follows, joined, keys_of,
    lemma_reached_follows, reached, selected, Actor, ErasedComponent, Next, Progress, Transition};
use crate::error::{ActorError, ErrorModel};
use crate::exit::Exit;
use crate::fact::{said, Fact, FactModel, NewFact};
use crate::json::{member_models, member_of, Json, JsonModel, Member, MemberModel};
use crate::json_text::{depth_limit, holds_members, json_printed, print_json, readable};
use crate::payload::{confirmation_payload, decision_payload, law_decision_round_trip,
    lemma_object_readable, object_from, spells_decision, summary_payload, survives, text_payload,
    tool_result_payload, write_decision, ConfirmationModel, DecisionModel, ModelDecision, ToolCall,
    ToolResultModel};
use crate::scheduler::{enabled_in, first_state, state_of, state_view, step, stepped,
    transition_model, transition_models, transitions_of, view_of, CodingTask, SchedulerState,
    StateModel, TransitionModel};
use crate::scheduler_laws::fits;
use crate::text::{concat2, concat3, copy_opt, copy_texts, decimal, decimal_text, text_opt, texts};

verus! {

/// A tool that the model can call.
#[derive(Debug, PartialEq, Eq)]
pub struct ToolSpec {
    pub name: String,
    pub description: String,
}

/// What a [`ToolSpec`] says.
pub struct ToolSpecModel {
    pub name: Seq<char>,
    pub description: Seq<char>,
}

impl View for ToolSpec {
    type V = ToolSpecModel;

    open spec fn view(&self) -> ToolSpecModel {
        ToolSpecModel { name: self.name@, description: self.description@ }
    }
}

impl Clone for ToolSpec {
    fn clone(&self) -> (copy: ToolSpec)
        ensures
            copy@ == self@,
    {
        ToolSpec { name: self.name.clone(), description: self.description.clone() }
    }
}

/// What a list of tools says.
pub open spec fn tool_models(tools: Seq<ToolSpec>) -> Seq<ToolSpecModel> {
    tools.map_values(|tool: ToolSpec| tool@)
}

/// A copy of a list of tools.
pub fn copy_tools(tools: &Vec<ToolSpec>) -> (copy: Vec<ToolSpec>)
    ensures
        tool_models(copy@) == tool_models(tools@),
{
    let mut copy: Vec<ToolSpec> = Vec::new();
    let mut i: usize = 0;
    while i < tools.len()
        invariant
            i <= tools@.len(),
            copy@.len() == i,
            forall|k: int| 0 <= k < i ==> (#[trigger] copy@[k])@ == tools@[k]@,
        decreases tools.len() - i,
    {
        copy.push(tools[i].clone());
        i += 1;
    }
    assert(tool_models(copy@) =~= tool_models(tools@));
    copy
}

/// What the model is asked.
#[derive(Debug)]
pub struct CompletionRequest {
    pub system: Vec<String>,
    pub tools: Vec<ToolSpec>,
    pub summary: String,
    pub messages: Vec<String>,
}

/// What a [`CompletionRequest`] says.
pub struct RequestModel {
    pub system: Seq<Seq<char>>,
    pub tools: Seq<ToolSpecModel>,
    pub summary: Seq<char>,
    pub messages: Seq<Seq<char>>,
}

impl View for CompletionRequest {
    type V = RequestModel;

    open spec fn view(&self) -> RequestModel {
        RequestModel {
            system: texts(self.system@),
            tools: tool_models(self.tools@),
            summary: self.summary@,
            messages: texts(self.messages@),
        }
    }
}

impl Clone for CompletionRequest {
    fn clone(&self) -> (copy: CompletionRequest)
        ensures
            copy@ == self@,
    {
        CompletionRequest {
            system: copy_texts(&self.system),
            tools: copy_tools(&self.tools),
            summary: self.summary.clone(),
            messages: copy_texts(&self.messages),
        }
    }
}

/// Configuration checked before an actor exists. A zero step limit or a zero
/// model attempt count cannot construct a harness.
#[derive(Debug, PartialEq, Eq)]
pub struct HarnessConfig {
    budget: u32,
    compact_after_chars: usize,
    step_limit: u32,
    model_attempts: u32,
    system: Vec<String>,
    tools: Vec<ToolSpec>,
    /// After this many successful tool results in the current turn, the next
    /// completion request carries an empty tool list. `None` does not cap.
    tool_round_cap: Option<u32>,
}

/// What a [`HarnessConfig`] says.
pub struct ConfigModel {
    pub budget: u32,
    pub compact_after_chars: usize,
    pub step_limit: u32,
    pub model_attempts: u32,
    pub system: Seq<Seq<char>>,
    pub tools: Seq<ToolSpecModel>,
    pub tool_round_cap: Option<u32>,
}

impl View for HarnessConfig {
    type V = ConfigModel;

    closed spec fn view(&self) -> ConfigModel {
        ConfigModel {
            budget: self.budget,
            compact_after_chars: self.compact_after_chars,
            step_limit: self.step_limit,
            model_attempts: self.model_attempts,
            system: texts(self.system@),
            tools: tool_models(self.tools@),
            tool_round_cap: self.tool_round_cap,
        }
    }
}

impl Clone for HarnessConfig {
    fn clone(&self) -> (copy: HarnessConfig)
        ensures
            copy@ == self@,
    {
        proof {
            use_type_invariant(self);
        }
        HarnessConfig {
            budget: self.budget,
            compact_after_chars: self.compact_after_chars,
            step_limit: self.step_limit,
            model_attempts: self.model_attempts,
            system: copy_texts(&self.system),
            tools: copy_tools(&self.tools),
            tool_round_cap: self.tool_round_cap,
        }
    }
}

impl HarnessConfig {
    #[verifier::type_invariant]
    spec fn checked(self) -> bool {
        self.step_limit >= 1 && self.model_attempts >= 1
    }

    pub fn new(
        budget: u32,
        compact_after_chars: usize,
        step_limit: u32,
        model_attempts: u32,
        system: Vec<String>,
        tools: Vec<ToolSpec>,
    ) -> (config: Result<HarnessConfig, ActorError>)
        ensures
            step_limit == 0 ==> (config matches Err(error) && error@ == ErrorModel::Config(
                "step_limit must be at least 1"@,
            )),
            step_limit != 0 && model_attempts == 0 ==> (config matches Err(error) && error@
                == ErrorModel::Config("model_attempts must be at least 1"@)),
            step_limit != 0 && model_attempts != 0 ==> (config matches Ok(made) && made@ == (
            ConfigModel {
                budget,
                compact_after_chars,
                step_limit,
                model_attempts,
                system: texts(system@),
                tools: tool_models(tools@),
                tool_round_cap: None,
            })),
    {
        if step_limit == 0 {
            return Err(ActorError::Config("step_limit must be at least 1".to_owned()));
        }
        if model_attempts == 0 {
            return Err(ActorError::Config("model_attempts must be at least 1".to_owned()));
        }
        Ok(
            HarnessConfig {
                budget,
                compact_after_chars,
                step_limit,
                model_attempts,
                system,
                tools,
                tool_round_cap: None,
            },
        )
    }

    /// One later completion sees no tools once this many tool results exist.
    /// The caller does not inject a user message to force that completion.
    pub fn with_tool_round_cap(self, cap: u32) -> (capped: HarnessConfig)
        ensures
            capped@ == (ConfigModel { tool_round_cap: Some(cap), ..self@ }),
    {
        proof {
            use_type_invariant(&self);
        }
        HarnessConfig {
            budget: self.budget,
            compact_after_chars: self.compact_after_chars,
            step_limit: self.step_limit,
            model_attempts: self.model_attempts,
            system: self.system,
            tools: self.tools,
            tool_round_cap: Some(cap),
        }
    }

    pub fn step_limit(&self) -> (limit: u32)
        ensures
            limit == self@.step_limit,
            limit >= 1,
    {
        proof {
            use_type_invariant(self);
        }
        self.step_limit
    }

    /// How often the model is asked at most.
    pub fn model_attempts(&self) -> (attempts: u32)
        ensures
            attempts == self@.model_attempts,
            attempts >= 1,
    {
        proof {
            use_type_invariant(self);
        }
        self.model_attempts
    }

    /// How many tools run in a turn at most.
    pub fn budget(&self) -> (budget: u32)
        ensures
            budget == self@.budget,
    {
        self.budget
    }

    /// The size from which a conversation is compacted.
    pub fn compact_after_chars(&self) -> (size: usize)
        ensures
            size == self@.compact_after_chars,
    {
        self.compact_after_chars
    }

    /// The tool results after which a request carries no tools.
    pub fn tool_round_cap(&self) -> (cap: Option<u32>)
        ensures
            cap == self@.tool_round_cap,
    {
        self.tool_round_cap
    }

    /// The system prompts.
    pub fn system(&self) -> (system: &Vec<String>)
        ensures
            texts(system@) == self@.system,
    {
        &self.system
    }

    /// The tools that the model can call.
    pub fn tools(&self) -> (tools: &Vec<ToolSpec>)
        ensures
            tool_models(tools@) == self@.tools,
    {
        &self.tools
    }
}

/// A configuration says all its settings.
proof fn law_configurations_say_what_they_hold(config: HarnessConfig)
    ensures
        config@.budget == config.budget,
        config@.compact_after_chars == config.compact_after_chars,
        config@.step_limit == config.step_limit,
        config@.model_attempts == config.model_attempts,
        config@.system.len() == config.system@.len(),
        forall|i: int|
            0 <= i < config.system@.len() ==> #[trigger] config@.system[i] == config.system@[i]@,
        config@.tools.len() == config.tools@.len(),
        forall|i: int|
            0 <= i < config.tools@.len() ==> #[trigger] config@.tools[i] == config.tools@[i]@,
        config@.tool_round_cap == config.tool_round_cap,
{
}

/// A tool call that waits for an answer.
#[derive(Debug, PartialEq)]
pub struct PendingConfirmation {
    pub tool_call_id: String,
    pub name: String,
    pub args: Json,
}

/// What a [`PendingConfirmation`] says.
pub struct PendingConfirmationModel {
    pub tool_call_id: Seq<char>,
    pub name: Seq<char>,
    pub args: JsonModel,
}

impl View for PendingConfirmation {
    type V = PendingConfirmationModel;

    open spec fn view(&self) -> PendingConfirmationModel {
        PendingConfirmationModel {
            tool_call_id: self.tool_call_id@,
            name: self.name@,
            args: self.args@,
        }
    }
}

impl Clone for PendingConfirmation {
    fn clone(&self) -> (copy: PendingConfirmation)
        ensures
            copy@ == self@,
    {
        PendingConfirmation {
            tool_call_id: self.tool_call_id.clone(),
            name: self.name.clone(),
            args: self.args.clone(),
        }
    }
}

/// A question that waits for an answer.
#[derive(Debug, PartialEq, Eq)]
pub struct PendingQuestion {
    pub question_id: String,
    pub question: String,
    pub allow_free_text: bool,
    pub options: Vec<String>,
}

/// What a [`PendingQuestion`] says.
pub struct PendingQuestionModel {
    pub question_id: Seq<char>,
    pub question: Seq<char>,
    pub allow_free_text: bool,
    pub options: Seq<Seq<char>>,
}

impl View for PendingQuestion {
    type V = PendingQuestionModel;

    open spec fn view(&self) -> PendingQuestionModel {
        PendingQuestionModel {
            question_id: self.question_id@,
            question: self.question@,
            allow_free_text: self.allow_free_text,
            options: texts(self.options@),
        }
    }
}

impl Clone for PendingQuestion {
    fn clone(&self) -> (copy: PendingQuestion)
        ensures
            copy@ == self@,
    {
        PendingQuestion {
            question_id: self.question_id.clone(),
            question: self.question.clone(),
            allow_free_text: self.allow_free_text,
            options: copy_texts(&self.options),
        }
    }
}

/// What the harness does or waits for.
#[derive(Debug, Clone, Copy, PartialEq, Eq, Structural)]
pub enum CodingPhase {
    Idle,
    Infer,
    Compact,
    Confirm,
    Question,
    Tool,
    Deny,
    Done,
}

/// What the harness shows.
#[derive(Debug, PartialEq)]
pub struct CodingView {
    pub system: Vec<String>,
    pub tools: Vec<ToolSpec>,
    pub pending_confirmation: Option<PendingConfirmation>,
    pub pending_question: Option<PendingQuestion>,
    pub assistant: Option<String>,
    pub phase: CodingPhase,
    pub schema_error: Option<String>,
    /// The tool budget, where a component states it.
    pub tool_budget: Option<u32>,
    /// The compaction threshold, where a component states it.
    pub compact_after_chars: Option<usize>,
}

/// What a [`CodingView`] says.
pub struct CodingViewModel {
    pub system: Seq<Seq<char>>,
    pub tools: Seq<ToolSpecModel>,
    pub pending_confirmation: Option<PendingConfirmationModel>,
    pub pending_question: Option<PendingQuestionModel>,
    pub assistant: Option<Seq<char>>,
    pub phase: CodingPhase,
    pub schema_error: Option<Seq<char>>,
    pub tool_budget: Option<u32>,
    pub compact_after_chars: Option<usize>,
}

/// What something optional says.
pub open spec fn opt_view<T: View>(item: Option<T>) -> Option<T::V> {
    match item {
        Some(item) => Some(item@),
        None => None,
    }
}

impl View for CodingView {
    type V = CodingViewModel;

    open spec fn view(&self) -> CodingViewModel {
        CodingViewModel {
            system: texts(self.system@),
            tools: tool_models(self.tools@),
            pending_confirmation: opt_view(self.pending_confirmation),
            pending_question: opt_view(self.pending_question),
            assistant: text_opt(self.assistant),
            phase: self.phase,
            schema_error: text_opt(self.schema_error),
            tool_budget: self.tool_budget,
            compact_after_chars: self.compact_after_chars,
        }
    }
}

impl Clone for CodingView {
    fn clone(&self) -> (copy: CodingView)
        ensures
            copy@ == self@,
    {
        CodingView {
            system: copy_texts(&self.system),
            tools: copy_tools(&self.tools),
            pending_confirmation: match &self.pending_confirmation {
                Some(pending) => Some(pending.clone()),
                None => None,
            },
            pending_question: match &self.pending_question {
                Some(pending) => Some(pending.clone()),
                None => None,
            },
            assistant: copy_opt(&self.assistant),
            phase: self.phase,
            schema_error: copy_opt(&self.schema_error),
            tool_budget: self.tool_budget,
            compact_after_chars: self.compact_after_chars,
        }
    }
}

/// The view that shows nothing.
pub open spec fn empty_view() -> CodingViewModel {
    CodingViewModel {
        system: Seq::empty(),
        tools: Seq::empty(),
        pending_confirmation: None,
        pending_question: None,
        assistant: None,
        phase: CodingPhase::Idle,
        schema_error: None,
        tool_budget: None,
        compact_after_chars: None,
    }
}

impl CodingView {
    /// The view that shows nothing.
    pub fn empty() -> (view: CodingView)
        ensures
            view@ == empty_view(),
    {
        let view = CodingView {
            system: Vec::new(),
            tools: Vec::new(),
            pending_confirmation: None,
            pending_question: None,
            assistant: None,
            phase: CodingPhase::Idle,
            schema_error: None,
            tool_budget: None,
            compact_after_chars: None,
        };
        assert(texts(view.system@) =~= Seq::empty());
        assert(tool_models(view.tools@) =~= Seq::empty());
        view
    }
}

/// The one of two that is there, the first where both are.
pub open spec fn first_of<T>(a: Option<T>, b: Option<T>) -> Option<T> {
    match a {
        Some(_) => a,
        None => b,
    }
}

/// Two views as one: prompts and tools one behind the other; of the rest the
/// first that is there, but of the assistant's words and the phase the last.
pub open spec fn combined(a: CodingViewModel, b: CodingViewModel) -> CodingViewModel {
    CodingViewModel {
        system: a.system + b.system,
        tools: a.tools + b.tools,
        pending_confirmation: first_of(a.pending_confirmation, b.pending_confirmation),
        pending_question: first_of(a.pending_question, b.pending_question),
        assistant: first_of(b.assistant, a.assistant),
        phase: if b.phase != CodingPhase::Idle {
            b.phase
        } else {
            a.phase
        },
        schema_error: first_of(a.schema_error, b.schema_error),
        tool_budget: first_of(a.tool_budget, b.tool_budget),
        compact_after_chars: first_of(a.compact_after_chars, b.compact_after_chars),
    }
}

/// What views say.
pub open spec fn view_models(views: Seq<CodingView>) -> Seq<CodingViewModel> {
    views.map_values(|view: CodingView| view@)
}

/// Views as one, from the first to the last.
pub open spec fn merged_view(views: Seq<CodingViewModel>) -> CodingViewModel
    decreases views.len(),
{
    if views.len() == 0 {
        empty_view()
    } else {
        combined(merged_view(views.drop_last()), views.last())
    }
}

fn combine(a: CodingView, b: CodingView) -> (view: CodingView)
    ensures
        view@ == combined(a@, b@),
{
    let ghost left = a@;
    let ghost right = b@;
    let mut system = a.system;
    let mut more_system = b.system;
    let mut tools = a.tools;
    let mut more_tools = b.tools;
    system.append(&mut more_system);
    tools.append(&mut more_tools);
    proof {
        assert(texts(system@) =~= left.system + right.system);
        assert(tool_models(tools@) =~= left.tools + right.tools);
    }
    CodingView {
        system,
        tools,
        pending_confirmation: match a.pending_confirmation {
            Some(pending) => Some(pending),
            None => b.pending_confirmation,
        },
        pending_question: match a.pending_question {
            Some(pending) => Some(pending),
            None => b.pending_question,
        },
        assistant: match b.assistant {
            Some(assistant) => Some(assistant),
            None => a.assistant,
        },
        phase: if b.phase != CodingPhase::Idle {
            b.phase
        } else {
            a.phase
        },
        schema_error: match a.schema_error {
            Some(report) => Some(report),
            None => b.schema_error,
        },
        tool_budget: match a.tool_budget {
            Some(limit) => Some(limit),
            None => b.tool_budget,
        },
        compact_after_chars: match a.compact_after_chars {
            Some(size) => Some(size),
            None => b.compact_after_chars,
        },
    }
}

/// Makes one view of several.
pub fn merge_coding_view(views: Vec<CodingView>) -> (view: CodingView)
    ensures
        view@ == merged_view(view_models(views@)),
{
    let ghost all = view_models(views@);
    let mut view = CodingView::empty();
    let mut i: usize = 0;
    assert(all.take(0) =~= Seq::empty());
    while i < views.len()
        invariant
            i <= views@.len(),
            all == view_models(views@),
            view@ == merged_view(all.take(i as int)),
        decreases views.len() - i,
    {
        proof {
            assert(all.take(i + 1).drop_last() =~= all.take(i as int));
            assert(all.take(i + 1).last() == views@[i as int]@);
        }
        view = combine(view, views[i].clone());
        i += 1;
    }
    assert(all.take(all.len() as int) =~= all);
    view
}

/// How views are grouped on the way does not matter.
pub proof fn law_combined_is_associative(a: CodingViewModel, b: CodingViewModel, c: CodingViewModel)
    ensures
        combined(combined(a, b), c) == combined(a, combined(b, c)),
{
    assert((a.system + b.system) + c.system =~= a.system + (b.system + c.system));
    assert((a.tools + b.tools) + c.tools =~= a.tools + (b.tools + c.tools));
}

/// The empty view adds nothing.
pub proof fn law_empty_view_is_neutral(a: CodingViewModel)
    ensures
        combined(a, empty_view()) == a,
        combined(empty_view(), a) == a,
{
    assert(a.system + Seq::empty() =~= a.system);
    assert(Seq::empty() + a.system =~= a.system);
    assert(a.tools + Seq::empty() =~= a.tools);
    assert(Seq::empty() + a.tools =~= a.tools);
}

/// Merging some views first and the rest behind them merges them all: nesting
/// components does not change what is shown.
pub proof fn law_merged_view_nests(a: Seq<CodingViewModel>, b: Seq<CodingViewModel>)
    ensures
        merged_view(a + b) == combined(merged_view(a), merged_view(b)),
    decreases b.len(),
{
    if b.len() == 0 {
        assert(a + b =~= a);
        law_empty_view_is_neutral(merged_view(a));
    } else {
        assert((a + b).drop_last() =~= a + b.drop_last());
        assert((a + b).last() == b.last());
        law_merged_view_nests(a, b.drop_last());
        law_combined_is_associative(merged_view(a), merged_view(b.drop_last()), b.last());
    }
}

/// A component that folds the scheduler over the log.
pub open spec fn is_scheduler(
    made: ErasedComponent<CodingTask, CodingView>,
    config: ConfigModel,
) -> bool {
    &&& forall|facts: Seq<Fact>| fits(config, said(facts)) ==> #[trigger] made.accepts(facts)
    &&& forall|facts: Seq<Fact>, view: CodingView, enabled: Seq<Transition<CodingTask>>| #[trigger]
        made.shows(facts, view, enabled) ==> {
            &&& view@ == state_view(state_of(config, said(facts)))
            &&& transition_models(enabled) == enabled_in(state_of(config, said(facts)), config)
        }
}

/// A component that always shows the same and enables nothing.
pub open spec fn is_slot(
    made: ErasedComponent<CodingTask, CodingView>,
    shown: CodingViewModel,
) -> bool {
    &&& forall|facts: Seq<Fact>| #[trigger] made.accepts(facts)
    &&& forall|facts: Seq<Fact>, view: CodingView, enabled: Seq<Transition<CodingTask>>| #[trigger]
        made.shows(facts, view, enabled) ==> view@ == shown && enabled.len() == 0
}

/// The component that schedules the harness.
pub fn coding_scheduler(config: HarnessConfig) -> (made: ErasedComponent<CodingTask, CodingView>)
    ensures
        is_scheduler(made, config@),
{
    let step_config = config.clone();
    let output_config = config;
    let ghost model = output_config@;
    let initial = || -> (state: SchedulerState)
        ensures
            state@ == first_state(),
        { SchedulerState::new() };
    let take = move |state: SchedulerState, fact: &Fact| -> (next: SchedulerState)
        requires
            crate::scheduler::countable(state@, fact@),
        ensures
            next@ == stepped(state@, fact@, step_config@),
        { step(state, fact, &step_config) };
    let output = move |state: &SchedulerState| -> (shown: (CodingView, Vec<Transition<CodingTask>>))
        ensures
            shown.0@ == state_view(state@),
            transition_models(shown.1@) == enabled_in(state@, output_config@),
        { (view_of(state), transitions_of(state, &output_config)) };
    let made = component(initial, take, output);
    proof {
        let next = |state: StateModel, fact: FactModel| stepped(state, fact, model);
        assert forall|facts: Seq<Fact>, state: SchedulerState| #[trigger]
            reached(initial, take, facts, state) implies state@ == state_of(model, said(facts)) by {
            lemma_reached_follows(initial, take, first_state(), next, facts, state);
        }
        assert forall|facts: Seq<Fact>| fits(model, said(facts)) implies #[trigger] made.accepts(
            facts,
        ) by {
            assert forall|i: int, state: SchedulerState|
                0 <= i < facts.len() && #[trigger] reached(
                    initial,
                    take,
                    facts.take(i),
                    state,
                ) implies take.requires((state, &facts[i])) by {
                assert(said(facts.take(i)) =~= said(facts).take(i));
                assert(said(facts)[i] == facts[i]@);
            }
        }
    }
    made
}

/// The component that shows the system prompts.
pub fn instructions(config: &HarnessConfig) -> (made: ErasedComponent<CodingTask, CodingView>)
    ensures
        is_slot(made, (CodingViewModel { system: config@.system, ..empty_view() })),
{
    crate::compose::system(copy_texts(config.system()))
}

/// The component that shows the tools.
pub fn catalog(config: &HarnessConfig) -> (made: ErasedComponent<CodingTask, CodingView>)
    ensures
        is_slot(made, (CodingViewModel { tools: config@.tools, ..empty_view() })),
{
    crate::compose::tools(copy_tools(config.tools()))
}

/// What the harness shows behind a log.
pub open spec fn harness_view(config: ConfigModel, facts: Seq<FactModel>) -> CodingViewModel {
    CodingViewModel {
        system: config.system,
        tools: config.tools,
        ..state_view(state_of(config, facts))
    }
}

/// What the harness still has to do behind a log: what its state enables, unless
/// the log has seen it finished.
pub open spec fn harness_work(config: ConfigModel, facts: Seq<FactModel>) -> Seq<TransitionModel> {
    let enabled = enabled_in(state_of(config, facts), config);
    if enabled.len() > 0 && caused(facts, enabled[0].key) {
        Seq::empty()
    } else {
        enabled
    }
}

/// The answer of the harness to a log.
pub open spec fn harness_answers(
    config: ConfigModel,
    facts: Seq<FactModel>,
    answer: Result<(CodingView, Vec<Transition<CodingTask>>), ActorError>,
) -> bool {
    answer matches Ok(shown) && {
        &&& shown.0@ == harness_view(config, facts)
        &&& transition_models(shown.1@) == harness_work(config, facts)
    }
}

/// An actor that runs the harness.
pub open spec fn is_harness(actor: Actor<CodingTask, CodingView>, config: ConfigModel) -> bool {
    &&& forall|facts: Seq<Fact>| fits(config, said(facts)) ==> #[trigger] actor.accepts(facts)
    &&& forall|
        facts: Seq<Fact>,
        views: Seq<CodingView>,
        lists: Seq<Seq<Transition<CodingTask>>>,
        answer: Result<(CodingView, Vec<Transition<CodingTask>>), ActorError>,
    | #[trigger]
        actor.answers(facts, views, lists, answer) ==> harness_answers(config, said(facts), answer)
}

/// A list of at most one transition is selected as it stands, or not at all.
pub proof fn lemma_select_one(
    enabled: Seq<Transition<CodingTask>>,
    facts: Seq<FactModel>,
    chosen: Seq<Transition<CodingTask>>,
)
    requires
        enabled.len() <= 1,
        selected(enabled, facts, chosen),
    ensures
        chosen == if enabled.len() == 1 && caused(facts, enabled[0].key@) {
            Seq::<Transition<CodingTask>>::empty()
        } else {
            enabled
        },
{
    assert forall|i: int| 0 <= i < chosen.len() implies #[trigger] chosen[i] == enabled[0] by {
        assert(chosen.contains(chosen[i]));
    }
    if enabled.len() == 1 {
        assert(enabled.contains(enabled[0]));
        if chosen.len() > 1 {
            assert(crate::text::text_before(chosen[0].key@, chosen[1].key@));
            crate::text::lemma_text_before_irreflexive(chosen[0].key@);
        }
        if caused(facts, enabled[0].key@) {
            if chosen.len() > 0 {
                assert(chosen.contains(chosen[0]));
            }
            assert(chosen =~= Seq::empty());
        } else {
            assert(chosen.contains(enabled[0]));
            assert(chosen =~= enabled);
        }
    } else {
        if chosen.len() > 0 {
            assert(chosen.contains(chosen[0]));
        }
        assert(chosen =~= enabled);
    }
}

/// An actor whose components enable together what the scheduler enables gives what
/// is left of it.
pub proof fn lemma_one_list(
    actor: Actor<CodingTask, CodingView>,
    config: ConfigModel,
    facts: Seq<Fact>,
    views: Seq<CodingView>,
    lists: Seq<Seq<Transition<CodingTask>>>,
    answer: Result<(CodingView, Vec<Transition<CodingTask>>), ActorError>,
)
    requires
        actor.answers(facts, views, lists, answer),
        transition_models(joined(lists)) == enabled_in(state_of(config, said(facts)), config),
    ensures
        answer matches Ok(shown) && transition_models(shown.1@) == harness_work(
            config,
            said(facts),
        ) && actor.merging().merges(views, shown.0),
{
    let all = joined(lists);
    assert(transition_models(all).len() == all.len());
    assert(first_repeat(keys_of(all)) is None) by {
        let keys = keys_of(all);
        if keys.len() > 0 {
            assert(keys.drop_last() =~= Seq::empty());
            assert(!keys.drop_last().contains(keys.last()));
            reveal_with_fuel(first_repeat, 2);
        }
    }
    let shown = answer->Ok_0;
    lemma_select_one(all, said(facts), shown.1@);
    assert(all.len() == 1 ==> transition_models(all)[0].key == all[0].key@);
    assert(shown.1@.len() == 0 ==> transition_models(shown.1@) =~= Seq::empty());
}

/// The stock harness: its prompts, its tools and its scheduler.
pub fn coding_actor(config: HarnessConfig) -> (actor: Actor<CodingTask, CodingView>)
    ensures
        actor.named() == "a3s-code"@,
        is_harness(actor, config@),
{
    let ghost model = config@;
    let system = instructions(&config);
    let tools = catalog(&config);
    let schedule = coding_scheduler(config);
    let ghost parts = seq![system, tools, schedule];
    let actor = Actor::new("a3s-code", vec![system, tools, schedule], merge_coding_view);
    proof {
        assert(actor.parts() =~= parts);
        assert forall|facts: Seq<Fact>| fits(model, said(facts)) implies #[trigger] actor.accepts(
            facts,
        ) by {
            assert(system.accepts(facts) && tools.accepts(facts) && schedule.accepts(facts));
        }
        assert forall|
            facts: Seq<Fact>,
            views: Seq<CodingView>,
            lists: Seq<Seq<Transition<CodingTask>>>,
            answer: Result<(CodingView, Vec<Transition<CodingTask>>), ActorError>,
        | #[trigger]
            actor.answers(facts, views, lists, answer) implies harness_answers(
            model,
            said(facts),
            answer,
        ) by {
            assert(parts[0].shows(facts, views[0], lists[0]));
            assert(parts[1].shows(facts, views[1], lists[1]));
            assert(parts[2].shows(facts, views[2], lists[2]));
            assert(joined(lists) =~= lists[2]) by {
                assert(lists.drop_last().drop_last().drop_last() =~= Seq::empty());
                assert(lists.drop_last().last() == lists[1]);
                assert(lists.drop_last().drop_last().last() == lists[0]);
                reveal_with_fuel(joined, 4);
            }
            lemma_one_list(actor, model, facts, views, lists, answer);
            let models = view_models(views);
            assert(models.drop_last().drop_last().drop_last() =~= Seq::empty());
            assert(models.drop_last().drop_last().last() == views[0]@);
            assert(models.drop_last().last() == views[1]@);
            assert(models.last() == views[2]@);
            reveal_with_fuel(merged_view, 4);
            let whole = merged_view(models);
            assert(whole.system =~= model.system);
            assert(whole.tools =~= model.tools);
            assert(whole == harness_view(model, said(facts)));
        }
    }
    actor
}

/// A log with no work left settles at once, in as many steps as were done before,
/// whenever it is read.
pub proof fn law_finished_work_settles(
    config: ConfigModel,
    facts: Seq<FactModel>,
    progress: Progress,
    answer: Result<(CodingView, Vec<Transition<CodingTask>>), ActorError>,
    next: Result<Next<CodingTask, CodingView>, Exit<ActorError>>,
)
    requires
        harness_work(config, facts).len() == 0,
        harness_answers(config, facts, answer),
        follows(progress, facts, answer, next),
    ensures
        next matches Ok(Next::Settled(settlement)) && settlement.steps == progress.steps
            && settlement.view@ == harness_view(config, facts),
{
    assert(transition_models(answer->Ok_0.1@).len() == answer->Ok_0.1@.len());
}

/// The scheduler answers two readings of a log alike.
pub proof fn law_scheduler_answers_alike(
    made: ErasedComponent<CodingTask, CodingView>,
    config: ConfigModel,
    facts: Seq<Fact>,
    read: Seq<Fact>,
)
    requires
        is_scheduler(made, config),
        said(facts) == said(read),
    ensures
        answers_alike(made, facts, read),
{
    assert forall|
        view: CodingView,
        enabled: Seq<Transition<CodingTask>>,
        other: CodingView,
        again: Seq<Transition<CodingTask>>,
    | #[trigger]
        made.shows(facts, view, enabled) && #[trigger] made.shows(read, other, again) implies keys_of(
        enabled,
    ) == keys_of(again) by {
        let (one, two) = (transition_models(enabled), transition_models(again));
        assert(one == two);
        assert(one.len() == enabled.len() && two.len() == again.len());
        assert forall|i: int| 0 <= i < enabled.len() implies keys_of(enabled)[i]
            == #[trigger] keys_of(again)[i] by {
            assert(one[i] == transition_model(enabled[i]));
            assert(two[i] == transition_model(again[i]));
        }
        assert(keys_of(enabled) =~= keys_of(again));
    }
}

/// A component that enables nothing answers any two logs alike.
pub proof fn law_slot_answers_alike(
    made: ErasedComponent<CodingTask, CodingView>,
    shown: CodingViewModel,
    facts: Seq<Fact>,
    read: Seq<Fact>,
)
    requires
        is_slot(made, shown),
    ensures
        answers_alike(made, facts, read),
{
    assert forall|
        view: CodingView,
        enabled: Seq<Transition<CodingTask>>,
        other: CodingView,
        again: Seq<Transition<CodingTask>>,
    | #[trigger]
        made.shows(facts, view, enabled) && #[trigger] made.shows(read, other, again) implies keys_of(
        enabled,
    ) == keys_of(again) by {
        assert(keys_of(enabled) =~= keys_of(again));
    }
}

/// Work that is left is performed within the step limit, and is an error behind it.
pub proof fn law_work_is_performed_or_limited(
    config: ConfigModel,
    facts: Seq<FactModel>,
    progress: Progress,
    answer: Result<(CodingView, Vec<Transition<CodingTask>>), ActorError>,
    next: Result<Next<CodingTask, CodingView>, Exit<ActorError>>,
)
    requires
        harness_work(config, facts).len() > 0,
        harness_answers(config, facts, answer),
        follows(progress, facts, answer, next),
    ensures
        progress.steps < progress.limit ==> (next matches Ok(
            Next::Perform { progress: kept, transition },
        ) && kept == progress && transition_model(transition) == harness_work(config, facts)[0]),
        progress.steps >= progress.limit ==> (next matches Err(Exit::Fail(error)) && error@ == (
        ErrorModel::StepLimit { limit: progress.limit })),
{
    let shown = answer->Ok_0;
    assert(transition_models(shown.1@).len() == shown.1@.len());
    assert(transition_models(shown.1@)[0] == transition_model(shown.1@[0]));
}

/// A message of the user.
pub fn message_fact(key: &str, text: &str) -> (fact: NewFact)
    ensures
        fact@.kind == "user.message"@,
        fact@.key == key@,
        holds_members(
            fact@.payload,
            seq![MemberModel { name: "text"@, value: JsonModel::Text(text@) }],
        ),
        text_payload(fact@.payload) == Ok::<Seq<char>, Seq<char>>(text@),
        readable(fact@.payload, (depth_limit() - 1) as nat),
{
    NewFact {
        kind: "user.message".to_owned(),
        key: key.to_owned(),
        payload: single("text", text),
    }
}

/// An answer to a question.
pub fn answer_fact(key: &str, text: &str) -> (fact: NewFact)
    ensures
        fact@.kind == "question.answered"@,
        fact@.key == key@,
        holds_members(
            fact@.payload,
            seq![MemberModel { name: "text"@, value: JsonModel::Text(text@) }],
        ),
        text_payload(fact@.payload) == Ok::<Seq<char>, Seq<char>>(text@),
        readable(fact@.payload, (depth_limit() - 1) as nat),
{
    NewFact {
        kind: "question.answered".to_owned(),
        key: key.to_owned(),
        payload: single("text", text),
    }
}

/// An object with one text.
fn single(name: &str, text: &str) -> (json: Json)
    ensures
        holds_members(
            json@,
            seq![MemberModel { name: name@, value: JsonModel::Text(text@) }],
        ),
        json@ matches JsonModel::Object(held) && member_of(held, name@) == Some(
            JsonModel::Text(text@),
        ),
        readable(json@, (depth_limit() - 1) as nat),
{
    let members = vec![Member { name: name.to_owned(), value: Json::Text(text.to_owned()) }];
    let ghost all = seq![MemberModel { name: name@, value: JsonModel::Text(text@) }];
    assert(member_models(members@) =~= all);
    let json = object_from(members);
    proof {
        assert(member_of(json@->Object_0, all[0].name) == Some(all[0].value));
        lemma_object_readable(json@, all, (depth_limit() - 1) as nat);
    }
    json
}

/// The members of an answer to a confirmation.
pub open spec fn confirm_members(tool_call_id: Seq<char>, approved: bool) -> Seq<MemberModel> {
    seq![
        MemberModel { name: "tool_call_id"@, value: JsonModel::Text(tool_call_id) },
        MemberModel { name: "approved"@, value: JsonModel::Bool(approved) },
    ]
}

/// An answer to a confirmation.
pub fn confirm_fact(key: &str, tool_call_id: &str, approved: bool) -> (fact: NewFact)
    ensures
        fact@.kind == "confirmation.answered"@,
        fact@.key == key@,
        holds_members(fact@.payload, confirm_members(tool_call_id@, approved)),
        confirmation_payload(fact@.payload) == Ok::<ConfirmationModel, Seq<char>>(
            (ConfirmationModel { tool_call_id: tool_call_id@, approved }),
        ),
        readable(fact@.payload, (depth_limit() - 1) as nat),
{
    let members = vec![
        Member { name: "tool_call_id".to_owned(), value: Json::Text(tool_call_id.to_owned()) },
        Member { name: "approved".to_owned(), value: Json::Bool(approved) },
    ];
    let ghost all = confirm_members(tool_call_id@, approved);
    proof {
        reveal_strlit("tool_call_id");
        reveal_strlit("approved");
        assert("tool_call_id"@.len() == 12 && "approved"@.len() == 8);
        assert(member_models(members@) =~= all);
    }
    let payload = object_from(members);
    proof {
        let held = payload@->Object_0;
        assert(member_of(held, all[0].name) == Some(all[0].value));
        assert(member_of(held, all[1].name) == Some(all[1].value));
        lemma_object_readable(payload@, all, (depth_limit() - 1) as nat);
    }
    NewFact { kind: "confirmation.answered".to_owned(), key: key.to_owned(), payload }
}

/// The fact that a compaction leaves.
pub fn compaction_fact(turn: u64, summary: &str) -> (fact: NewFact)
    ensures
        fact@.kind == "compaction.done"@,
        fact@.key == "compaction:"@ + decimal(turn as nat),
        holds_members(
            fact@.payload,
            seq![MemberModel { name: "summary"@, value: JsonModel::Text(summary@) }],
        ),
        summary_payload(fact@.payload) == Ok::<Seq<char>, Seq<char>>(summary@),
        readable(fact@.payload, (depth_limit() - 1) as nat),
{
    NewFact {
        kind: "compaction.done".to_owned(),
        key: concat2("compaction:", decimal_text(turn as u128).as_str()),
        payload: single("summary", summary),
    }
}

/// The fact that a decision of the model leaves.
pub fn model_fact(turn: u64, cycle: u64, decision: &ModelDecision) -> (fact: NewFact)
    ensures
        fact@.kind == "model.turn"@,
        fact@.key == "model:"@ + decimal(turn as nat) + ":"@ + decimal(cycle as nat),
        spells_decision(fact@.payload, decision@),
        decision_payload(fact@.payload) == Ok::<DecisionModel, Seq<char>>(decision@),
        survives(decision@) ==> readable(fact@.payload, (depth_limit() - 1) as nat),
{
    let head = concat2("model:", decimal_text(turn as u128).as_str());
    let payload = write_decision(decision);
    proof {
        law_decision_round_trip(payload@, decision@);
    }
    NewFact {
        kind: "model.turn".to_owned(),
        key: concat3(head.as_str(), ":", decimal_text(cycle as u128).as_str()),
        payload,
    }
}

/// The text of what a tool put out: a text as it stands, anything else as JSON.
pub open spec fn output_text(output: JsonModel) -> Seq<char> {
    match output {
        JsonModel::Text(text) => text,
        other => json_printed(other),
    }
}

/// The members of the result of a tool.
pub open spec fn result_members(tool_call_id: Seq<char>, output: Seq<char>) -> Seq<MemberModel> {
    seq![
        MemberModel { name: "toolCallId"@, value: JsonModel::Text(tool_call_id) },
        MemberModel { name: "ok"@, value: JsonModel::Bool(true) },
        MemberModel { name: "output"@, value: JsonModel::Text(output) },
    ]
}

/// The fact that a tool leaves.
pub fn tool_fact(call: &ToolCall, output: &Json) -> (fact: NewFact)
    ensures
        fact@.kind == "tool.result"@,
        fact@.key == "tool-result:"@ + call@.id,
        holds_members(fact@.payload, result_members(call@.id, output_text(output@))),
        tool_result_payload(fact@.payload) == Ok::<ToolResultModel, Seq<char>>(
            (ToolResultModel { ok: true, output: output_text(output@) }),
        ),
        readable(fact@.payload, (depth_limit() - 1) as nat),
{
    let text = match output {
        Json::Text(text) => text.clone(),
        other => print_json(other),
    };
    let members = vec![
        Member { name: "toolCallId".to_owned(), value: Json::Text(call.id.clone()) },
        Member { name: "ok".to_owned(), value: Json::Bool(true) },
        Member { name: "output".to_owned(), value: Json::Text(text) },
    ];
    let ghost all = result_members(call@.id, output_text(output@));
    proof {
        reveal_strlit("toolCallId");
        reveal_strlit("ok");
        reveal_strlit("output");
        assert("toolCallId"@.len() == 10 && "ok"@.len() == 2 && "output"@.len() == 6);
        assert(member_models(members@) =~= all);
    }
    let payload = object_from(members);
    proof {
        let held = payload@->Object_0;
        assert(member_of(held, all[0].name) == Some(all[0].value));
        assert(member_of(held, all[1].name) == Some(all[1].value));
        assert(member_of(held, all[2].name) == Some(all[2].value));
        lemma_object_readable(payload@, all, (depth_limit() - 1) as nat);
    }
    NewFact {
        kind: "tool.result".to_owned(),
        key: concat2("tool-result:", call.id.as_str()),
        payload,
    }
}

/// The fact that a call over the budget leaves.
pub fn denied_fact(tool_call_id: &str) -> (fact: NewFact)
    ensures
        fact@.kind == "budget.denied"@,
        fact@.key == "budget-denied:"@ + tool_call_id@,
        holds_members(
            fact@.payload,
            seq![MemberModel { name: "toolCallId"@, value: JsonModel::Text(tool_call_id@) }],
        ),
        readable(fact@.payload, (depth_limit() - 1) as nat),
{
    NewFact {
        kind: "budget.denied".to_owned(),
        key: concat2("budget-denied:", tool_call_id),
        payload: single("toolCallId", tool_call_id),
    }
}

/// How a failed question to the model stops: a defect is no expected failure, so
/// it is not retried.
pub fn completion_exit(error: ActorError) -> (exit: Exit<ActorError>)
    ensures
        exit == match error {
            ActorError::Defect(message) => Exit::Die(message),
            other => Exit::Fail(other),
        },
{
    match error {
        ActorError::Defect(message) => Exit::Die(message),
        other => Exit::Fail(other),
    }
}

} // verus!
