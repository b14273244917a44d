//! Composition: components mounted on one log.
//!
//! Nested components carry the prefix of their mount in the keys of their
//! transitions, so that siblings cannot collide. The stock scheduler is mounted
//! without a prefix, so that the causes in existing logs stay stable.

use vstd::prelude::*;

pub use crate::actor::mount::{mount, namespace_transitions, with_key_namespace};

use crate::actor::mount::{is_merge, is_mount, namespaced, namespaced_key, trimmed};
use crate::actor::{all_accept, component, joined, shown_by, Actor, ErasedComponent, ErasedMerge,
    Transition};
use crate::coding::{coding_actor, copy_tools, empty_view, harness_view, harness_work, is_harness,
    is_scheduler, is_slot, lemma_one_list, merge_coding_view, merged_view, tool_models,
    view_models, CodingPhase, CodingView, CodingViewModel, ConfigModel, HarnessConfig, ToolSpec,
    ToolSpecModel};
use crate::error::{ActorError, ErrorModel};
use crate::fact::{said, Fact};
use crate::scheduler::{enabled_in, transition_models, CodingTask, StateModel};
use crate::text::{copy_texts, texts};

verus! {

/// Documented merge slots of the harness view. The same shape as [`CodingView`];
/// prefer this name where components are composed.
pub type HarnessView = CodingView;

/// The component that always shows the same view and enables nothing.
fn slot(view: CodingView) -> (made: ErasedComponent<CodingTask, CodingView>)
    ensures
        is_slot(made, view@),
{
    let initial = || -> (state: ()) { () };
    let take = |state: (), fact: &Fact| -> (next: ()) { state };
    let output = move |state: &()| -> (answer: (CodingView, Vec<Transition<CodingTask>>))
        ensures
            answer.0@ == view@,
            answer.1@ == Seq::<Transition<CodingTask>>::empty(),
        { (view.clone(), Vec::new()) };
    component(initial, take, output)
}

/// System-prompt slot component.
pub fn system(prompts: Vec<String>) -> (made: ErasedComponent<CodingTask, CodingView>)
    ensures
        is_slot(made, (CodingViewModel { system: texts(prompts@), ..empty_view() })),
{
    slot(CodingView { system: prompts, ..CodingView::empty() })
}

/// Tool-catalog slot component.
pub fn tools(specs: Vec<ToolSpec>) -> (made: ErasedComponent<CodingTask, CodingView>)
    ensures
        is_slot(made, (CodingViewModel { tools: tool_models(specs@), ..empty_view() })),
{
    slot(CodingView { tools: specs, ..CodingView::empty() })
}

/// First-class budget policy slot. The stock scheduler enforces the numeric limit
/// of its own configuration.
pub fn budget(limit: u32) -> (made: ErasedComponent<CodingTask, CodingView>)
    ensures
        is_slot(made, (CodingViewModel { tool_budget: Some(limit), ..empty_view() })),
{
    slot(CodingView { tool_budget: Some(limit), ..CodingView::empty() })
}

/// First-class compaction threshold slot.
pub fn compact(after_chars: usize) -> (made: ErasedComponent<CodingTask, CodingView>)
    ensures
        is_slot(made, (CodingViewModel { compact_after_chars: Some(after_chars), ..empty_view() })),
{
    slot(CodingView { compact_after_chars: Some(after_chars), ..CodingView::empty() })
}

/// What a mount of `infer` may answer with.
pub open spec fn shows_inferred(
    children: Seq<ErasedComponent<CodingTask, CodingView>>,
    facts: Seq<Fact>,
    view: CodingView,
    enabled: Seq<Transition<CodingTask>>,
) -> bool {
    exists|views: Seq<CodingView>, lists: Seq<Seq<Transition<CodingTask>>>| #[trigger]
        shown_by(children, facts, views, lists) && view@ == merged_view(view_models(views))
            && namespaced("infer"@, joined(lists), enabled)
}

/// Nested components with a key-space prefix, for subtrees that a host writes. The
/// stock harness mounts its scheduler without this prefix, so that persisted cause
/// keys stay stable.
pub fn infer(children: Vec<ErasedComponent<CodingTask, CodingView>>) -> (made: ErasedComponent<
    CodingTask,
    CodingView,
>)
    ensures
        forall|facts: Seq<Fact>| #[trigger] made.accepts(facts) == all_accept(children@, facts),
        forall|facts: Seq<Fact>, view: CodingView, enabled: Seq<Transition<CodingTask>>| #[trigger]
            made.shows(facts, view, enabled) ==> shows_inferred(children@, facts, view, enabled),
{
    let ghost parts = children@;
    let made = mount("infer", children, merge_coding_view);
    proof {
        let merging = choose|merging: ErasedMerge<CodingView>| #[trigger]
            is_mount(made, "infer"@, parts, merging) && is_merge(merging, merge_coding_view);
        assert forall|
            facts: Seq<Fact>,
            view: CodingView,
            enabled: Seq<Transition<CodingTask>>,
        | #[trigger]
            made.shows(facts, view, enabled) implies shows_inferred(
            parts,
            facts,
            view,
            enabled,
        ) by {
            let (views, lists) = choose|
                views: Seq<CodingView>,
                lists: Seq<Seq<Transition<CodingTask>>>,
            | #[trigger]
                shown_by(parts, facts, views, lists) && merging.merges(views, view) && namespaced(
                    "infer"@,
                    joined(lists),
                    enabled,
                );
            assert(shown_by(parts, facts, views, lists));
        }
    }
    made
}

/// Stock part identifiers for recipes.
#[derive(Debug, Clone, Copy, PartialEq, Eq, Structural)]
pub enum HarnessPartId {
    System,
    Tools,
    Budget,
    Compact,
    Infer,
}

/// A declarative recipe of a harness.
#[derive(Debug, PartialEq, Eq)]
pub struct MetaHarnessSpec {
    pub name: &'static str,
    pub budget: u32,
    pub compact_after_chars: usize,
    pub step_limit: u32,
    pub model_attempts: u32,
    pub system: Vec<String>,
    pub tools: Vec<ToolSpec>,
    pub tool_round_cap: Option<u32>,
    /// Ordered part ids. Empty means the stock tree: system, tools, budget, compact
    /// and the scheduler.
    pub parts: Vec<HarnessPartId>,
}

/// What a [`MetaHarnessSpec`] says.
pub struct RecipeModel {
    pub name: Seq<char>,
    pub budget: u32,
    pub compact_after_chars: usize,
    pub step_limit: u32,
    pub model_attempts: u32,
    pub system: Seq<Seq<char>>,
    pub tools: Seq<ToolSpecModel>,
    pub tool_round_cap: Option<u32>,
    pub parts: Seq<HarnessPartId>,
}

impl View for MetaHarnessSpec {
    type V = RecipeModel;

    open spec fn view(&self) -> RecipeModel {
        RecipeModel {
            name: self.name@,
            budget: self.budget,
            compact_after_chars: self.compact_after_chars,
            step_limit: self.step_limit,
            model_attempts: self.model_attempts,
            system: texts(self.system@),
            tools: tool_models(self.tools@),
            tool_round_cap: self.tool_round_cap,
            parts: self.parts@,
        }
    }
}

impl Clone for MetaHarnessSpec {
    fn clone(&self) -> (copy: MetaHarnessSpec)
        ensures
            copy@ == self@,
    {
        let parts = self.parts.clone();
        assert(parts@ =~= self.parts@);
        MetaHarnessSpec {
            name: self.name,
            budget: self.budget,
            compact_after_chars: self.compact_after_chars,
            step_limit: self.step_limit,
            model_attempts: self.model_attempts,
            system: copy_texts(&self.system),
            tools: copy_tools(&self.tools),
            tool_round_cap: self.tool_round_cap,
            parts,
        }
    }
}

impl Default for MetaHarnessSpec {
    fn default() -> (recipe: MetaHarnessSpec)
        ensures
            recipe@ == (RecipeModel {
                name: "a3s-code"@,
                budget: 8,
                compact_after_chars: 1_000_000,
                step_limit: 32,
                model_attempts: 2,
                system: Seq::empty(),
                tools: Seq::empty(),
                tool_round_cap: None,
                parts: Seq::empty(),
            }),
    {
        let recipe = MetaHarnessSpec {
            name: "a3s-code",
            budget: 8,
            compact_after_chars: 1_000_000,
            step_limit: 32,
            model_attempts: 2,
            system: Vec::new(),
            tools: Vec::new(),
            tool_round_cap: None,
            parts: Vec::new(),
        };
        assert(texts(recipe.system@) =~= Seq::empty());
        assert(tool_models(recipe.tools@) =~= Seq::empty());
        recipe
    }
}

/// The parts of the stock tree.
pub open spec fn stock_parts() -> Seq<HarnessPartId> {
    seq![
        HarnessPartId::System,
        HarnessPartId::Tools,
        HarnessPartId::Budget,
        HarnessPartId::Compact,
        HarnessPartId::Infer,
    ]
}

/// The parts that a recipe means.
pub open spec fn resolved(parts: Seq<HarnessPartId>) -> Seq<HarnessPartId> {
    if parts.len() == 0 {
        stock_parts()
    } else {
        parts
    }
}

impl MetaHarnessSpec {
    /// The configuration that the recipe describes.
    pub fn into_config(self) -> (config: Result<HarnessConfig, ActorError>)
        ensures
            self@.step_limit == 0 ==> (config matches Err(error) && error@ == ErrorModel::Config(
                "step_limit must be at least 1"@,
            )),
            self@.step_limit != 0 && self@.model_attempts == 0 ==> (config matches Err(error)
                && error@ == ErrorModel::Config("model_attempts must be at least 1"@)),
            self@.step_limit != 0 && self@.model_attempts != 0 ==> (config matches Ok(made)
                && made@ == (ConfigModel {
                budget: self@.budget,
                compact_after_chars: self@.compact_after_chars,
                step_limit: self@.step_limit,
                model_attempts: self@.model_attempts,
                system: self@.system,
                tools: self@.tools,
                tool_round_cap: self@.tool_round_cap,
            })),
    {
        let config = match HarnessConfig::new(
            self.budget,
            self.compact_after_chars,
            self.step_limit,
            self.model_attempts,
            self.system,
            self.tools,
        ) {
            Ok(config) => config,
            Err(error) => return Err(error),
        };
        match self.tool_round_cap {
            Some(cap) => Ok(config.with_tool_round_cap(cap)),
            None => Ok(config),
        }
    }

    /// The parts that the recipe means.
    pub fn resolved_parts(&self) -> (parts: Vec<HarnessPartId>)
        ensures
            parts@ == resolved(self@.parts),
    {
        if self.parts.len() == 0 {
            let parts = vec![
                HarnessPartId::System,
                HarnessPartId::Tools,
                HarnessPartId::Budget,
                HarnessPartId::Compact,
                HarnessPartId::Infer,
            ];
            assert(parts@ =~= stock_parts());
            parts
        } else {
            let parts = self.parts.clone();
            assert(parts@ =~= self.parts@);
            parts
        }
    }
}

/// An actor of these components whose views are merged as the harness merges them.
pub open spec fn is_composed(
    actor: Actor<CodingTask, CodingView>,
    parts: Seq<ErasedComponent<CodingTask, CodingView>>,
) -> bool {
    &&& actor.parts() == parts
    &&& forall|views: Seq<CodingView>| #[trigger] actor.merging().accepts(views)
    &&& forall|views: Seq<CodingView>, view: CodingView| #[trigger]
        actor.merging().merges(views, view) ==> view@ == merged_view(view_models(views))
}

/// Builds an actor from components in order.
pub fn compose_coding_actor(
    name: &'static str,
    components: Vec<ErasedComponent<CodingTask, CodingView>>,
) -> (actor: Actor<CodingTask, CodingView>)
    ensures
        actor.named() == name@,
        is_composed(actor, components@),
{
    Actor::new(name, components, merge_coding_view)
}

/// A component that stands for a part of a recipe.
pub open spec fn stands_for<F: Fn() -> ErasedComponent<CodingTask, CodingView>>(
    made: ErasedComponent<CodingTask, CodingView>,
    part: HarnessPartId,
    recipe: RecipeModel,
    make_scheduler: F,
) -> bool {
    match part {
        HarnessPartId::System => is_slot(
            made,
            CodingViewModel { system: recipe.system, ..empty_view() },
        ),
        HarnessPartId::Tools => is_slot(
            made,
            CodingViewModel { tools: recipe.tools, ..empty_view() },
        ),
        HarnessPartId::Budget => is_slot(
            made,
            CodingViewModel { tool_budget: Some(recipe.budget), ..empty_view() },
        ),
        HarnessPartId::Compact => is_slot(
            made,
            CodingViewModel {
                compact_after_chars: Some(recipe.compact_after_chars),
                ..empty_view()
            },
        ),
        HarnessPartId::Infer => make_scheduler.ensures((), made),
    }
}

/// An actor whose components stand for the parts of a recipe, in order.
pub open spec fn follows_recipe<F: Fn() -> ErasedComponent<CodingTask, CodingView>>(
    actor: Actor<CodingTask, CodingView>,
    recipe: RecipeModel,
    make_scheduler: F,
) -> bool {
    let parts = resolved(recipe.parts);
    &&& actor.named() == recipe.name
    &&& is_composed(actor, actor.parts())
    &&& actor.parts().len() == parts.len()
    &&& forall|i: int|
        0 <= i < parts.len() ==> stands_for(
            #[trigger] actor.parts()[i],
            parts[i],
            recipe,
            make_scheduler,
        )
}

fn compose_meta_harness_with<F: Fn() -> ErasedComponent<CodingTask, CodingView>>(
    recipe: MetaHarnessSpec,
    make_scheduler: F,
) -> (actor: Actor<CodingTask, CodingView>)
    requires
        make_scheduler.requires(()),
    ensures
        follows_recipe(actor, recipe@, make_scheduler),
{
    let parts = recipe.resolved_parts();
    let mut components: Vec<ErasedComponent<CodingTask, CodingView>> = Vec::new();
    let mut i: usize = 0;
    while i < parts.len()
        invariant
            i <= parts@.len(),
            parts@ == resolved(recipe@.parts),
            make_scheduler.requires(()),
            components@.len() == i,
            forall|k: int|
                0 <= k < i ==> stands_for(
                    #[trigger] components@[k],
                    parts@[k],
                    recipe@,
                    make_scheduler,
                ),
        decreases parts.len() - i,
    {
        let made = match parts[i] {
            HarnessPartId::System => system(copy_texts(&recipe.system)),
            HarnessPartId::Tools => tools(copy_tools(&recipe.tools)),
            HarnessPartId::Budget => budget(recipe.budget),
            HarnessPartId::Compact => compact(recipe.compact_after_chars),
            HarnessPartId::Infer => make_scheduler(),
        };
        components.push(made);
        i += 1;
    }
    compose_coding_actor(recipe.name, components)
}

/// A harness that is ready to run: the stock one or a composed tree.
pub struct HarnessGraph {
    actor: Actor<CodingTask, CodingView>,
}

impl HarnessGraph {
    /// The actor of the graph.
    pub closed spec fn held(&self) -> Actor<CodingTask, CodingView> {
        self.actor
    }

    pub fn from_actor(actor: Actor<CodingTask, CodingView>) -> (graph: HarnessGraph)
        ensures
            graph.held() == actor,
    {
        HarnessGraph { actor }
    }

    pub fn coding(config: HarnessConfig) -> (graph: HarnessGraph)
        ensures
            graph.held().named() == "a3s-code"@,
            is_harness(graph.held(), config@),
    {
        HarnessGraph { actor: coding_actor(config) }
    }

    /// Composes a graph from a recipe. `make_scheduler` is called once for each
    /// part that infers; the stock recipe has one.
    pub fn from_spec<F: Fn() -> ErasedComponent<CodingTask, CodingView>>(
        recipe: MetaHarnessSpec,
        make_scheduler: F,
    ) -> (graph: HarnessGraph)
        requires
            make_scheduler.requires(()),
        ensures
            follows_recipe(graph.held(), recipe@, make_scheduler),
    {
        HarnessGraph { actor: compose_meta_harness_with(recipe, make_scheduler) }
    }

    pub fn actor(&self) -> (actor: &Actor<CodingTask, CodingView>)
        ensures
            *actor == self.held(),
    {
        &self.actor
    }

    pub fn into_actor(self) -> (actor: Actor<CodingTask, CodingView>)
        ensures
            actor == self.held(),
    {
        self.actor
    }
}

/// The stock tree does what the stock harness does, and shows the budget and the
/// compaction threshold besides.
pub proof fn law_stock_tree_is_the_harness<F: Fn() -> ErasedComponent<CodingTask, CodingView>>(
    actor: Actor<CodingTask, CodingView>,
    recipe: RecipeModel,
    make_scheduler: F,
    config: ConfigModel,
    facts: Seq<Fact>,
    views: Seq<CodingView>,
    lists: Seq<Seq<Transition<CodingTask>>>,
    answer: Result<(CodingView, Vec<Transition<CodingTask>>), ActorError>,
)
    requires
        follows_recipe(actor, recipe, make_scheduler),
        recipe.parts.len() == 0,
        recipe.system == config.system,
        recipe.tools == config.tools,
        forall|made: ErasedComponent<CodingTask, CodingView>| #[trigger]
            make_scheduler.ensures((), made) ==> is_scheduler(made, config),
        actor.answers(facts, views, lists, answer),
    ensures
        answer matches Ok(shown) && transition_models(shown.1@) == harness_work(
            config,
            said(facts),
        ) && shown.0@ == (CodingViewModel {
            tool_budget: Some(recipe.budget),
            compact_after_chars: Some(recipe.compact_after_chars),
            ..harness_view(config, said(facts))
        }),
{
    let parts = actor.parts();
    assert(parts[0].shows(facts, views[0], lists[0]));
    assert(parts[1].shows(facts, views[1], lists[1]));
    assert(parts[2].shows(facts, views[2], lists[2]));
    assert(parts[3].shows(facts, views[3], lists[3]));
    assert(parts[4].shows(facts, views[4], lists[4]));
    assert(joined(lists) =~= lists[4]) by {
        let four = lists.drop_last();
        let three = four.drop_last();
        let two = three.drop_last();
        let one = two.drop_last();
        assert(one.drop_last() =~= Seq::empty());
        assert(four.last() == lists[3] && three.last() == lists[2] && two.last() == lists[1]
            && one.last() == lists[0]);
        assert(joined(one) =~= Seq::empty()) by {
            reveal_with_fuel(joined, 2);
        }
        assert(joined(two) =~= Seq::empty());
        assert(joined(three) =~= Seq::empty());
        assert(joined(four) =~= Seq::empty());
    }
    lemma_one_list(actor, config, facts, views, lists, answer);
    let five = view_models(views);
    let four = five.drop_last();
    let three = four.drop_last();
    let two = three.drop_last();
    let one = two.drop_last();
    assert(one.drop_last() =~= Seq::empty());
    assert(five.last() == views[4]@ && four.last() == views[3]@ && three.last() == views[2]@
        && two.last() == views[1]@ && one.last() == views[0]@);
    reveal_with_fuel(merged_view, 6);
    let whole = merged_view(five);
    assert(whole.system =~= config.system);
    assert(whole.tools =~= config.tools);
}

/// The stock scheduler, which has no prefix, cannot collide with what a mount of
/// `infer` enables.
pub proof fn law_stock_keys_stay_clear_of_mounts(
    state: StateModel,
    config: ConfigModel,
    mounted: Seq<char>,
    at: int,
)
    requires
        0 <= at < enabled_in(state, config).len(),
    ensures
        enabled_in(state, config)[at].key != namespaced_key("infer"@, mounted),
{
    reveal_strlit("infer");
    reveal_strlit("/");
    reveal_strlit("infer:");
    reveal_strlit("compact:");
    reveal_strlit("tool:");
    reveal_strlit("budget:");
    let prefix = "infer"@;
    assert(prefix[0] == 'i' && prefix.last() == 'r');
    assert(trimmed(prefix) == prefix);
    let under = namespaced_key(prefix, mounted);
    assert(under[0] == 'i' && under[5] == '/');
    let key = enabled_in(state, config)[at].key;
    if state.phase == CodingPhase::Infer {
        assert(key[5] == ':');
    } else if state.phase == CodingPhase::Compact {
        assert(key[0] == 'c');
    } else if state.phase == CodingPhase::Tool {
        assert(key[0] == 't');
    } else {
        assert(key[0] == 'b');
    }
}

} // verus!
