//! An actor is a fold over an immutable log.
//!
//! Each component is a Moore machine: a step consumes one fact, and the output
//! gives the view and the transitions that the state enables. A transition that
//! has left its key as a cause in the log is not selected again, so resuming a
//! thread continues unfinished work and does not repeat finished work.

pub mod mount;

use vstd::prelude::*;

use crate::effect::{told, EventModel, TraceEvent};
use crate::error::{ActorError, ErrorModel};
use crate::exit::Exit;
use crate::fact::{cut_log, hex, last_seq, log_bytes, said, sha256, Fact, FactModel, LogCut,
    NewFact, NewFactModel};
use crate::log::{all_recorded, committed, law_log_grows, numbered};
use crate::text::{concat2, same_text, text_before, text_less};

verus! {

/// Work that a state enables, under a key of its own. `R` describes the work.
pub struct Transition<R> {
    pub key: String,
    pub run: R,
}

/// One machine over the log.
pub trait Component<R, V>: Send + Sync {
    /// The component can be shown these facts.
    spec fn accepts(&self, facts: Seq<Fact>) -> bool;

    /// The component may answer these facts with this view and these transitions.
    spec fn shows(&self, facts: Seq<Fact>, view: V, enabled: Seq<Transition<R>>) -> bool;

    /// Folds the facts and gives the view and the transitions.
    fn project(&self, facts: &[Fact]) -> (shown: (V, Vec<Transition<R>>))
        requires
            self.accepts(facts@),
        ensures
            self.shows(facts@, shown.0, shown.1@),
    ;
}

/// A component whose state is hidden.
#[verifier::reject_recursive_types(R)]
#[verifier::reject_recursive_types(V)]
pub struct ErasedComponent<R, V> {
    inner: Box<dyn Component<R, V>>,
}

impl<R, V> ErasedComponent<R, V> {
    /// The component can be shown these facts.
    pub closed spec fn accepts(&self, facts: Seq<Fact>) -> bool {
        self.inner.accepts(facts)
    }

    /// The component may answer these facts with this view and these transitions.
    pub closed spec fn shows(&self, facts: Seq<Fact>, view: V, enabled: Seq<Transition<R>>) -> bool {
        self.inner.shows(facts, view, enabled)
    }

    /// Folds the facts and gives the view and the transitions.
    pub fn project(&self, facts: &[Fact]) -> (shown: (V, Vec<Transition<R>>))
        requires
            self.accepts(facts@),
        ensures
            self.shows(facts@, shown.0, shown.1@),
    {
        self.inner.project(facts)
    }
}

/// A state that a machine can be in behind these facts.
pub open spec fn reached<St, I: Fn() -> St, Step: Fn(St, &Fact) -> St>(
    initial: I,
    step: Step,
    facts: Seq<Fact>,
    state: St,
) -> bool
    decreases facts.len(),
{
    if facts.len() == 0 {
        initial.ensures((), state)
    } else {
        exists|before: St|
            reached(initial, step, facts.drop_last(), before) && #[trigger] step.ensures(
                (before, &facts.last()),
                state,
            )
    }
}

/// A machine can be run over these facts.
pub open spec fn runnable<R, V, St, I, Step, Out>(
    initial: I,
    step: Step,
    output: Out,
    facts: Seq<Fact>,
) -> bool where
    I: Fn() -> St,
    Step: Fn(St, &Fact) -> St,
    Out: Fn(&St) -> (V, Vec<Transition<R>>),
 {
    &&& initial.requires(())
    &&& forall|i: int, state: St|
        0 <= i < facts.len() && #[trigger] reached(initial, step, facts.take(i), state)
            ==> step.requires((state, &facts[i]))
    &&& forall|state: St| #[trigger]
        reached(initial, step, facts, state) ==> output.requires((&state,))
}

/// What a machine may answer these facts with.
pub open spec fn answered<R, V, St, I, Step, Out>(
    initial: I,
    step: Step,
    output: Out,
    facts: Seq<Fact>,
    view: V,
    enabled: Seq<Transition<R>>,
) -> bool where
    I: Fn() -> St,
    Step: Fn(St, &Fact) -> St,
    Out: Fn(&St) -> (V, Vec<Transition<R>>),
 {
    exists|state: St, shown: (V, Vec<Transition<R>>)|
        reached(initial, step, facts, state) && #[trigger] output.ensures((&state,), shown)
            && shown.0 == view && shown.1@ == enabled
}

/// Runs a machine over facts.
fn run_machine<R, V, St, I, Step, Out>(initial: &I, step: &Step, output: &Out, facts: &[Fact]) -> (
shown: (V, Vec<Transition<R>>)) where
    I: Fn() -> St,
    Step: Fn(St, &Fact) -> St,
    Out: Fn(&St) -> (V, Vec<Transition<R>>),

    requires
        runnable::<R, V, St, I, Step, Out>(*initial, *step, *output, facts@),
    ensures
        answered(*initial, *step, *output, facts@, shown.0, shown.1@),
{
    let mut state = initial();
    let mut i: usize = 0;
    assert(facts@.take(0) =~= Seq::empty());
    while i < facts.len()
        invariant
            i <= facts@.len(),
            runnable::<R, V, St, I, Step, Out>(*initial, *step, *output, facts@),
            reached(*initial, *step, facts@.take(i as int), state),
        decreases facts.len() - i,
    {
        let ghost before = state;
        state = step(state, &facts[i]);
        proof {
            assert(facts@.take(i + 1).drop_last() =~= facts@.take(i as int));
            assert(facts@.take(i + 1).last() == facts@[i as int]);
            assert(step.ensures((before, &facts@[i as int]), state));
        }
        i += 1;
    }
    assert(facts@.take(facts@.len() as int) =~= facts@);
    output(&state)
}

/// A machine that is given by its first state, its step and its output.
struct Machine<St, I, Step, Out> {
    initial: I,
    step: Step,
    output: Out,
    state: core::marker::PhantomData<St>,
}

impl<R, V, St, I, Step, Out> Component<R, V> for Machine<St, I, Step, Out> where
    St: Send + Sync,
    I: Fn() -> St + Send + Sync,
    Step: Fn(St, &Fact) -> St + Send + Sync,
    Out: Fn(&St) -> (V, Vec<Transition<R>>) + Send + Sync,
 {
    closed spec fn accepts(&self, facts: Seq<Fact>) -> bool {
        runnable::<R, V, St, I, Step, Out>(self.initial, self.step, self.output, facts)
    }

    closed spec fn shows(&self, facts: Seq<Fact>, view: V, enabled: Seq<Transition<R>>) -> bool {
        answered(self.initial, self.step, self.output, facts, view, enabled)
    }

    fn project(&self, facts: &[Fact]) -> (shown: (V, Vec<Transition<R>>)) {
        run_machine(&self.initial, &self.step, &self.output, facts)
    }
}

/// The component that a machine makes.
pub fn component<R, V, St, I, Step, Out>(initial: I, step: Step, output: Out) -> (made:
    ErasedComponent<R, V>) where
    R: 'static,
    V: 'static,
    St: Send + Sync + 'static,
    I: Fn() -> St + Send + Sync + 'static,
    Step: Fn(St, &Fact) -> St + Send + Sync + 'static,
    Out: Fn(&St) -> (V, Vec<Transition<R>>) + Send + Sync + 'static,

    ensures
        forall|facts: Seq<Fact>| #[trigger]
            made.accepts(facts) == runnable::<R, V, St, I, Step, Out>(initial, step, output, facts),
        forall|facts: Seq<Fact>, view: V, enabled: Seq<Transition<R>>| #[trigger]
            made.shows(facts, view, enabled) == answered(
                initial,
                step,
                output,
                facts,
                view,
                enabled,
            ),
{
    ErasedComponent { inner: Box::new(Machine { initial, step, output, state: core::marker::PhantomData }) }
}

/// A machine whose first state and step follow a model is behind any facts in a
/// state that follows the model.
pub proof fn lemma_reached_follows<St: View, I: Fn() -> St, Step: Fn(St, &Fact) -> St>(
    initial: I,
    step: Step,
    first: St::V,
    next: spec_fn(St::V, FactModel) -> St::V,
    facts: Seq<Fact>,
    state: St,
)
    requires
        forall|made: St| #[trigger] initial.ensures((), made) ==> made@ == first,
        forall|before: St, fact: Fact, after: St| #[trigger]
            step.ensures((before, &fact), after) ==> after@ == next(before@, fact@),
        reached(initial, step, facts, state),
    ensures
        state@ == folded(first, next, said(facts)),
    decreases facts.len(),
{
    if facts.len() == 0 {
        assert(said(facts) =~= Seq::empty());
    } else {
        let before = choose|before: St|
            reached(initial, step, facts.drop_last(), before) && #[trigger] step.ensures(
                (before, &facts.last()),
                state,
            );
        lemma_reached_follows(initial, step, first, next, facts.drop_last(), before);
        assert(said(facts).drop_last() =~= said(facts.drop_last()));
        assert(said(facts).last() == facts.last()@);
    }
}

/// A fold over what facts say, from the first to the last.
pub open spec fn folded<M>(
    first: M,
    next: spec_fn(M, FactModel) -> M,
    facts: Seq<FactModel>,
) -> M
    decreases facts.len(),
{
    if facts.len() == 0 {
        first
    } else {
        next(folded(first, next, facts.drop_last()), facts.last())
    }
}

/// Makes one view of several.
pub trait Merge<V>: Send + Sync {
    /// The views can be merged.
    spec fn accepts(&self, views: Seq<V>) -> bool;

    /// The views may merge into this one.
    spec fn merges(&self, views: Seq<V>, view: V) -> bool;

    /// Merges views.
    fn merge(&self, views: Vec<V>) -> (view: V)
        requires
            self.accepts(views@),
        ensures
            self.merges(views@, view),
    ;
}

/// A function of views.
struct Merger<F> {
    f: F,
}

impl<V, F: Fn(Vec<V>) -> V + Send + Sync> Merge<V> for Merger<F> {
    closed spec fn accepts(&self, views: Seq<V>) -> bool {
        mergeable(self.f, views)
    }

    closed spec fn merges(&self, views: Seq<V>, view: V) -> bool {
        merged(self.f, views, view)
    }

    fn merge(&self, views: Vec<V>) -> (view: V) {
        (self.f)(views)
    }
}

/// The function can be applied to these views.
pub open spec fn mergeable<V, F: Fn(Vec<V>) -> V>(f: F, views: Seq<V>) -> bool {
    forall|list: Vec<V>| list@ == views ==> #[trigger] f.requires((list,))
}

/// The function may make this view of those.
pub open spec fn merged<V, F: Fn(Vec<V>) -> V>(f: F, views: Seq<V>, view: V) -> bool {
    exists|list: Vec<V>| list@ == views && #[trigger] f.ensures((list,), view)
}

/// A merge whose function is hidden.
#[verifier::reject_recursive_types(V)]
pub struct ErasedMerge<V> {
    inner: Box<dyn Merge<V>>,
}

impl<V: 'static> ErasedMerge<V> {
    /// The views can be merged.
    pub closed spec fn accepts(&self, views: Seq<V>) -> bool {
        self.inner.accepts(views)
    }

    /// The views may merge into this one.
    pub closed spec fn merges(&self, views: Seq<V>, view: V) -> bool {
        self.inner.merges(views, view)
    }

    pub fn new<F: Fn(Vec<V>) -> V + Send + Sync + 'static>(f: F) -> (made: ErasedMerge<V>)
        ensures
            forall|views: Seq<V>| #[trigger] made.accepts(views) == mergeable(f, views),
            forall|views: Seq<V>, view: V| #[trigger]
                made.merges(views, view) == merged(f, views, view),
    {
        ErasedMerge { inner: Box::new(Merger { f }) }
    }

    /// Merges views.
    pub fn merge(&self, views: Vec<V>) -> (view: V)
        requires
            self.accepts(views@),
        ensures
            self.merges(views@, view),
    {
        self.inner.merge(views)
    }
}

/// Several components answer these facts with these views and transitions.
pub open spec fn shown_by<R, V>(
    children: Seq<ErasedComponent<R, V>>,
    facts: Seq<Fact>,
    views: Seq<V>,
    lists: Seq<Seq<Transition<R>>>,
) -> bool {
    &&& views.len() == children.len()
    &&& lists.len() == children.len()
    &&& forall|i: int|
        0 <= i < children.len() ==> (#[trigger] children[i]).shows(facts, views[i], lists[i])
}

/// Several components can be shown these facts.
pub open spec fn all_accept<R, V>(children: Seq<ErasedComponent<R, V>>, facts: Seq<Fact>) -> bool {
    forall|i: int| 0 <= i < children.len() ==> (#[trigger] children[i]).accepts(facts)
}

/// Lists, one behind the other.
pub open spec fn joined<T>(lists: Seq<Seq<T>>) -> Seq<T>
    decreases lists.len(),
{
    if lists.len() == 0 {
        Seq::empty()
    } else {
        joined(lists.drop_last()) + lists.last()
    }
}

/// Shows facts to several components and collects what they answer.
pub(crate) fn gather<R, V>(children: &Vec<ErasedComponent<R, V>>, facts: &[Fact]) -> (shown: (
    Vec<V>,
    Vec<Transition<R>>,
))
    requires
        all_accept(children@, facts@),
    ensures
        exists|lists: Seq<Seq<Transition<R>>>| #[trigger]
            shown_by(children@, facts@, shown.0@, lists) && shown.1@ == joined(lists),
{
    let mut views: Vec<V> = Vec::new();
    let mut transitions: Vec<Transition<R>> = Vec::new();
    let ghost mut lists: Seq<Seq<Transition<R>>> = Seq::empty();
    let mut i: usize = 0;
    while i < children.len()
        invariant
            i <= children@.len(),
            all_accept(children@, facts@),
            views@.len() == i,
            lists.len() == i,
            forall|k: int|
                0 <= k < i ==> (#[trigger] children@[k]).shows(facts@, views@[k], lists[k]),
            transitions@ == joined(lists),
        decreases children.len() - i,
    {
        let (view, mut enabled) = children[i].project(facts);
        proof {
            assert(lists.push(enabled@).drop_last() =~= lists);
            lists = lists.push(enabled@);
        }
        views.push(view);
        transitions.append(&mut enabled);
        i += 1;
    }
    let shown = (views, transitions);
    assert(shown_by(children@, facts@, shown.0@, lists) && shown.1@ == joined(lists));
    shown
}

/// The keys of transitions.
pub open spec fn keys_of<R>(transitions: Seq<Transition<R>>) -> Seq<Seq<char>> {
    transitions.map_values(|transition: Transition<R>| transition.key@)
}

/// The first key that stands twice.
pub open spec fn first_repeat(keys: Seq<Seq<char>>) -> Option<Seq<char>>
    decreases keys.len(),
{
    if keys.len() == 0 {
        None
    } else {
        match first_repeat(keys.drop_last()) {
            Some(key) => Some(key),
            None => if keys.drop_last().contains(keys.last()) {
                Some(keys.last())
            } else {
                None
            },
        }
    }
}

/// Where no key stands twice, the keys are different.
pub proof fn lemma_no_repeat(keys: Seq<Seq<char>>)
    requires
        first_repeat(keys) is None,
    ensures
        forall|i: int, j: int| 0 <= i < j < keys.len() ==> #[trigger] keys[i] != #[trigger] keys[j],
    decreases keys.len(),
{
    if keys.len() > 0 {
        let rest = keys.drop_last();
        lemma_no_repeat(rest);
        assert forall|i: int, j: int| 0 <= i < j < keys.len() implies #[trigger] keys[i]
            != #[trigger] keys[j] by {
            assert(rest[i] == keys[i]);
            if j < rest.len() {
                assert(rest[j] == keys[j]);
            }
        }
    }
}

/// A key that stands twice among the first keys stays the first one.
proof fn lemma_repeat_stays(keys: Seq<Seq<char>>, upto: int)
    requires
        0 <= upto <= keys.len(),
        first_repeat(keys.take(upto)) is Some,
    ensures
        first_repeat(keys) == first_repeat(keys.take(upto)),
    decreases keys.len(),
{
    if upto == keys.len() {
        assert(keys.take(upto) =~= keys);
    } else {
        assert(keys.drop_last().take(upto) =~= keys.take(upto));
        lemma_repeat_stays(keys.drop_last(), upto);
    }
}

/// Finds the first transition whose key stands before.
fn find_repeat<R>(transitions: &Vec<Transition<R>>) -> (found: Option<usize>)
    ensures
        match found {
            Some(at) => at < transitions@.len() && first_repeat(keys_of(transitions@)) == Some(
                transitions@[at as int].key@,
            ),
            None => first_repeat(keys_of(transitions@)) is None,
        },
{
    let ghost keys = keys_of(transitions@);
    let mut i: usize = 0;
    assert(keys.take(0) =~= Seq::empty());
    while i < transitions.len()
        invariant
            i <= transitions@.len(),
            keys == keys_of(transitions@),
            first_repeat(keys.take(i as int)) is None,
        decreases transitions.len() - i,
    {
        let ghost before = keys.take(i as int);
        let mut j: usize = 0;
        let mut repeated = false;
        while j < i
            invariant
                j <= i < transitions@.len(),
                keys == keys_of(transitions@),
                before == keys.take(i as int),
                repeated <==> (exists|k: int| 0 <= k < j && #[trigger] before[k] == keys[i as int]),
            decreases i - j,
        {
            assert(before[j as int] == transitions@[j as int].key@);
            if same_text(transitions[j].key.as_str(), transitions[i].key.as_str()) {
                repeated = true;
            }
            j += 1;
        }
        proof {
            let upto = keys.take(i + 1);
            assert(upto.drop_last() =~= before);
            assert(upto.last() == keys[i as int]);
            assert(repeated ==> before.contains(keys[i as int]));
        }
        if repeated {
            proof {
                lemma_repeat_stays(keys, i + 1);
            }
            return Some(i);
        }
        i += 1;
    }
    assert(keys.take(keys.len() as int) =~= keys);
    None
}

/// The log records a fact that this transition caused.
pub open spec fn caused(facts: Seq<FactModel>, key: Seq<char>) -> bool {
    exists|i: int| 0 <= i < facts.len() && (#[trigger] facts[i]).cause == Some(key)
}

fn has_caused(facts: &[Fact], key: &str) -> (found: bool)
    ensures
        found == caused(said(facts@), key@),
{
    let ghost all = said(facts@);
    let mut i: usize = 0;
    while i < facts.len()
        invariant
            i <= facts@.len(),
            all == said(facts@),
            forall|k: int| 0 <= k < i ==> (#[trigger] all[k]).cause != Some(key@),
        decreases facts.len() - i,
    {
        assert(all[i as int] == facts@[i as int]@);
        match &facts[i].cause {
            Some(cause) => {
                if same_text(cause.as_str(), key) {
                    assert(all[i as int].cause == Some(key@));
                    return true;
                }
            },
            None => {},
        }
        i += 1;
    }
    false
}

/// Transitions by their keys, from the first to the last.
pub open spec fn in_order<R>(transitions: Seq<Transition<R>>) -> bool {
    forall|i: int, j: int|
        0 <= i < j < transitions.len() ==> text_before(
            (#[trigger] transitions[i]).key@,
            (#[trigger] transitions[j]).key@,
        )
}

/// The enabled transitions that the log has not seen finished, by their keys.
pub open spec fn selected<R>(
    enabled: Seq<Transition<R>>,
    facts: Seq<FactModel>,
    chosen: Seq<Transition<R>>,
) -> bool {
    &&& in_order(chosen)
    &&& forall|transition: Transition<R>| #[trigger]
        chosen.contains(transition) <==> enabled.contains(transition) && !caused(
            facts,
            transition.key@,
        )
}

/// Puts a transition in its place.
fn place<R>(chosen: &mut Vec<Transition<R>>, transition: Transition<R>)
    requires
        in_order(old(chosen)@),
        forall|i: int|
            0 <= i < old(chosen)@.len() ==> (#[trigger] old(chosen)@[i]).key@ != transition.key@,
    ensures
        in_order(final(chosen)@),
        forall|other: Transition<R>| #[trigger]
            final(chosen)@.contains(other) <==> old(chosen)@.contains(other) || other == transition,
{
    let ghost before = chosen@;
    let mut at: usize = 0;
    while at < chosen.len() && text_less(chosen[at].key.as_str(), transition.key.as_str())
        invariant
            at <= chosen@.len(),
            chosen@ == before,
            forall|i: int|
                0 <= i < at ==> text_before((#[trigger] chosen@[i]).key@, transition.key@),
        decreases chosen.len() - at,
    {
        at += 1;
    }
    chosen.insert(at, transition);
    proof {
        let after = chosen@;
        if at < before.len() {
            crate::text::lemma_text_before_total(before[at as int].key@, transition.key@);
        }
        assert forall|i: int, j: int| 0 <= i < j < after.len() implies text_before(
            (#[trigger] after[i]).key@,
            (#[trigger] after[j]).key@,
        ) by {
            if i < at && j > at {
                assert(text_before(before[i].key@, before[j - 1].key@));
            } else if i == at && j > at + 1 {
                crate::text::lemma_text_before_transitive(
                    transition.key@,
                    before[at as int].key@,
                    before[j - 1].key@,
                );
            } else if i > at {
                assert(text_before(before[i - 1].key@, before[j - 1].key@));
            }
        }
        assert forall|other: Transition<R>| #[trigger] after.contains(other) <==> before.contains(
            other,
        ) || other == transition by {
            if before.contains(other) {
                let i = choose|i: int| 0 <= i < before.len() && before[i] == other;
                if i < at {
                    assert(after[i] == other);
                } else {
                    assert(after[i + 1] == other);
                }
            }
            assert(after[at as int] == transition);
            if after.contains(other) {
                let i = choose|i: int| 0 <= i < after.len() && after[i] == other;
                if i < at {
                    assert(before[i] == other);
                } else if i > at {
                    assert(before[i - 1] == other);
                }
            }
        }
    }
}

/// Selects the transitions that are not finished and puts them in order.
fn select<R>(enabled: Vec<Transition<R>>, facts: &[Fact]) -> (chosen: Vec<Transition<R>>)
    requires
        first_repeat(keys_of(enabled@)) is None,
    ensures
        selected(enabled@, said(facts@), chosen@),
{
    let ghost all = enabled@;
    let ghost keys = keys_of(all);
    proof {
        lemma_no_repeat(keys);
    }
    let mut rest = enabled;
    let mut chosen: Vec<Transition<R>> = Vec::new();
    assert(all.take(all.len() as int) =~= all);
    while rest.len() > 0
        invariant
            rest@ == all.take(rest@.len() as int),
            rest@.len() <= all.len(),
            keys == keys_of(all),
            forall|i: int, j: int|
                0 <= i < j < keys.len() ==> #[trigger] keys[i] != #[trigger] keys[j],
            in_order(chosen@),
            forall|transition: Transition<R>| #[trigger]
                chosen@.contains(transition) <==> all.skip(rest@.len() as int).contains(transition)
                    && !caused(said(facts@), transition.key@),
        decreases rest.len(),
    {
        let ghost n = rest@.len() as int;
        let ghost kept = chosen@;
        let ghost seen = all.skip(n);
        let taken = rest.pop();
        let transition = match taken {
            Some(transition) => transition,
            None => {
                assert(false);
                return chosen;
            },
        };
        proof {
            assert(transition == all[n - 1]);
            assert(rest@ =~= all.take(n - 1));
            assert forall|other: Transition<R>| all.skip(n - 1).contains(other) <==> seen.contains(
                other,
            ) || other == transition by {
                let more = all.skip(n - 1);
                assert(more[0] == transition);
                if seen.contains(other) {
                    let i = choose|i: int| 0 <= i < seen.len() && seen[i] == other;
                    assert(more[i + 1] == other);
                }
                if more.contains(other) && other != transition {
                    let i = choose|i: int| 0 <= i < more.len() && more[i] == other;
                    assert(seen[i - 1] == other);
                }
            }
            assert forall|i: int| 0 <= i < kept.len() implies (#[trigger] kept[i]).key@
                != transition.key@ by {
                assert(kept.contains(kept[i]));
                let j = choose|j: int| 0 <= j < seen.len() && seen[j] == kept[i];
                assert(all[n + j] == kept[i]);
                assert(keys[n - 1] == transition.key@);
                assert(keys[n + j] == kept[i].key@);
            }
        }
        if !has_caused(facts, transition.key.as_str()) {
            place(&mut chosen, transition);
        }
    }
    proof {
        assert(all.skip(0) =~= all);
    }
    chosen
}

/// Components over one log, and how their views make one.
#[verifier::reject_recursive_types(R)]
#[verifier::reject_recursive_types(V)]
pub struct Actor<R, V> {
    pub name: &'static str,
    components: Vec<ErasedComponent<R, V>>,
    merge: ErasedMerge<V>,
}

impl<R: 'static, V: 'static> Actor<R, V> {
    /// The name of the actor.
    pub closed spec fn named(&self) -> Seq<char> {
        self.name@
    }

    /// The components of the actor.
    pub closed spec fn parts(&self) -> Seq<ErasedComponent<R, V>> {
        self.components@
    }

    /// How the views of its components make one.
    pub closed spec fn merging(&self) -> ErasedMerge<V> {
        self.merge
    }

    /// The actor can be shown these facts.
    pub open spec fn accepts(&self, facts: Seq<Fact>) -> bool {
        &&& all_accept(self.parts(), facts)
        &&& forall|views: Seq<V>, lists: Seq<Seq<Transition<R>>>| #[trigger]
            shown_by(self.parts(), facts, views, lists) ==> self.merging().accepts(views)
    }

    /// What the actor makes of the answers of its components.
    pub open spec fn answers(
        &self,
        facts: Seq<Fact>,
        views: Seq<V>,
        lists: Seq<Seq<Transition<R>>>,
        answer: Result<(V, Vec<Transition<R>>), ActorError>,
    ) -> bool {
        &&& shown_by(self.parts(), facts, views, lists)
        &&& match first_repeat(keys_of(joined(lists))) {
            Some(key) => answer matches Err(error) && error@ == (ErrorModel::DuplicateTransition {
                key,
            }),
            None => answer matches Ok(shown) && self.merging().merges(views, shown.0) && selected(
                joined(lists),
                said(facts),
                shown.1@,
            ),
        }
    }

    pub fn new<F: Fn(Vec<V>) -> V + Send + Sync + 'static>(
        name: &'static str,
        components: Vec<ErasedComponent<R, V>>,
        merge: F,
    ) -> (actor: Actor<R, V>)
        ensures
            actor.named() == name@,
            actor.parts() == components@,
            forall|views: Seq<V>| #[trigger]
                actor.merging().accepts(views) == mergeable(merge, views),
            forall|views: Seq<V>, view: V| #[trigger]
                actor.merging().merges(views, view) == merged(merge, views, view),
    {
        Actor { name, components, merge: ErasedMerge::new(merge) }
    }

    /// Folds the facts: the merged view, and the transitions that are enabled and
    /// not finished, in the order of their keys. Two components that enable the
    /// same key are an error.
    pub fn project(&self, facts: &[Fact]) -> (answer: Result<(V, Vec<Transition<R>>), ActorError>)
        requires
            self.accepts(facts@),
        ensures
            exists|views: Seq<V>, lists: Seq<Seq<Transition<R>>>| #[trigger]
                self.answers(facts@, views, lists, answer),
    {
        let (views, transitions) = gather(&self.components, facts);
        let ghost shown = views@;
        let ghost lists = choose|lists: Seq<Seq<Transition<R>>>| #[trigger]
            shown_by(self.parts(), facts@, shown, lists) && transitions@ == joined(lists);
        match find_repeat(&transitions) {
            Some(at) => {
                let answer = Err(
                    ActorError::DuplicateTransition { key: transitions[at].key.clone() },
                );
                assert(self.answers(facts@, shown, lists, answer));
                return answer;
            },
            None => {},
        }
        let chosen = select(transitions, facts);
        let view = self.merge.merge(views);
        let answer = Ok((view, chosen));
        assert(self.answers(facts@, shown, lists, answer));
        answer
    }
}

/// A thread that enables nothing more: its view, its log and where the log was cut,
/// and what was done to get there.
pub struct Settlement<V> {
    pub view: V,
    pub log: Vec<Fact>,
    pub steps: u32,
    pub cut: LogCut,
    pub trace: Vec<TraceEvent>,
}

/// How far a thread has come towards settling.
pub struct Progress {
    pub limit: u32,
    pub steps: u32,
    pub trace: Vec<TraceEvent>,
}

/// What a thread does next.
pub enum Next<R, V> {
    Settled(Settlement<V>),
    Perform { progress: Progress, transition: Transition<R> },
}

/// The settlement of these facts behind this progress.
pub open spec fn settles<V>(
    progress: Progress,
    facts: Seq<FactModel>,
    view: V,
    settlement: Settlement<V>,
) -> bool {
    &&& settlement.view == view
    &&& said(settlement.log@) == facts
    &&& settlement.steps == progress.steps
    &&& settlement.cut.seq == last_seq(facts)
    &&& settlement.cut.digest@ == hex(sha256(log_bytes(facts)))
    &&& told(settlement.trace@) == told(progress.trace@)
}

/// What follows from the answer of an actor: an error stops the thread; no
/// transition settles it; a transition behind the step limit is an error; else the
/// first transition is performed.
pub open spec fn follows<R, V>(
    progress: Progress,
    facts: Seq<FactModel>,
    answer: Result<(V, Vec<Transition<R>>), ActorError>,
    next: Result<Next<R, V>, Exit<ActorError>>,
) -> bool {
    match answer {
        Err(error) => next matches Err(Exit::Fail(told)) && told@ == error@,
        Ok(shown) => if shown.1@.len() == 0 {
            next matches Ok(Next::Settled(settlement)) && settles(
                progress,
                facts,
                shown.0,
                settlement,
            )
        } else if progress.steps >= progress.limit {
            next matches Err(Exit::Fail(error)) && error@ == (ErrorModel::StepLimit {
                limit: progress.limit,
            })
        } else {
            next matches Ok(Next::Perform { progress: kept, transition }) && kept == progress
                && transition == shown.1@[0]
        },
    }
}

/// What a thread does next on a log: what follows from an answer of its actor.
pub open spec fn decided<R: 'static, V: 'static>(
    progress: Progress,
    actor: Actor<R, V>,
    facts: Seq<Fact>,
    next: Result<Next<R, V>, Exit<ActorError>>,
) -> bool {
    exists|
        views: Seq<V>,
        lists: Seq<Seq<Transition<R>>>,
        answer: Result<(V, Vec<Transition<R>>), ActorError>,
    | #[trigger]
        actor.answers(facts, views, lists, answer) && follows(progress, said(facts), answer, next)
}

impl Progress {
    /// A thread at its start.
    pub fn new(limit: u32) -> (progress: Progress)
        ensures
            progress.limit == limit,
            progress.steps == 0,
            told(progress.trace@) == Seq::<EventModel>::empty(),
    {
        let progress = Progress { limit, steps: 0, trace: Vec::new() };
        assert(told(progress.trace@) =~= Seq::empty());
        progress
    }

    /// Decides on the log as it was read.
    pub fn decide<R: 'static, V: 'static>(self, actor: &Actor<R, V>, facts: Vec<Fact>) -> (next:
        Result<Next<R, V>, Exit<ActorError>>)
        requires
            actor.accepts(facts@),
        ensures
            decided(self, *actor, facts@, next),
    {
        let ghost all = facts@;
        let answer = actor.project(facts.as_slice());
        let ghost given = answer;
        let ghost (views, lists) = choose|views: Seq<V>, lists: Seq<Seq<Transition<R>>>| #[trigger]
            actor.answers(all, views, lists, given);
        assert(actor.answers(all, views, lists, given));
        let (view, mut transitions) = match answer {
            Ok(shown) => shown,
            Err(error) => {
                let next: Result<Next<R, V>, Exit<ActorError>> = Err(Exit::Fail(error));
                assert(follows(self, said(all), given, next));
                return next;
            },
        };
        if transitions.len() == 0 {
            let settlement = Settlement {
                view,
                cut: cut_log(facts.as_slice()),
                log: facts,
                steps: self.steps,
                trace: self.trace,
            };
            let next = Ok(Next::Settled(settlement));
            assert(follows(self, said(all), given, next));
            return next;
        }
        if self.steps >= self.limit {
            let next = Err(Exit::Fail(ActorError::StepLimit { limit: self.limit }));
            assert(follows(self, said(all), given, next));
            return next;
        }
        let transition = transitions.remove(0);
        let next = Ok(Next::Perform { progress: self, transition });
        assert(follows(self, said(all), given, next));
        next
    }

    /// Takes what performing a transition came to, and the events that it recorded.
    pub fn performed(
        &mut self,
        result: Result<Vec<NewFact>, Exit<ActorError>>,
        span: Vec<TraceEvent>,
    ) -> (produced: Result<Vec<NewFact>, Exit<ActorError>>)
        ensures
            produced == result,
            told(final(self).trace@) == told(old(self).trace@) + told(span@),
            final(self).steps == old(self).steps,
            final(self).limit == old(self).limit,
    {
        let ghost before = self.trace@;
        let mut span = span;
        let ghost more = span@;
        self.trace.append(&mut span);
        assert(told(self.trace@) =~= told(before) + told(more));
        result
    }

    /// Takes what appending the produced facts came to: a step, or an error.
    pub fn appended(&mut self, appended: Result<Vec<Fact>, ActorError>) -> (kept: Result<
        (),
        Exit<ActorError>,
    >)
        requires
            old(self).steps < old(self).limit,
        ensures
            match appended {
                Ok(_) => kept == Ok::<(), Exit<ActorError>>(()) && final(self).steps == old(
                    self,
                ).steps + 1,
                Err(error) => kept matches Err(Exit::Fail(told)) && told@ == error@
                    && final(self).steps == old(self).steps,
            },
            final(self).limit == old(self).limit,
            final(self).trace == old(self).trace,
    {
        match appended {
            Ok(_) => {
                self.steps += 1;
                Ok(())
            },
            Err(error) => Err(Exit::Fail(error)),
        }
    }
}

/// The name of the span around a transition.
pub fn span_name(key: &str) -> (name: String)
    ensures
        name@ == "transition:"@ + key@,
{
    concat2("transition:", key)
}

/// A finished transition is never selected: no transition that an actor gives has
/// left its key as a cause in the log.
pub proof fn law_finished_is_not_selected<R>(
    enabled: Seq<Transition<R>>,
    facts: Seq<FactModel>,
    chosen: Seq<Transition<R>>,
    at: int,
)
    requires
        selected(enabled, facts, chosen),
        0 <= at < chosen.len(),
    ensures
        !caused(facts, chosen[at].key@),
        enabled.contains(chosen[at]),
{
    assert(chosen.contains(chosen[at]));
}

/// The transitions that are given, and their order, depend only on which
/// transitions are enabled, not on the order of the components.
pub proof fn law_selection_ignores_order<R>(
    enabled: Seq<Transition<R>>,
    reordered: Seq<Transition<R>>,
    facts: Seq<FactModel>,
    one: Seq<Transition<R>>,
    other: Seq<Transition<R>>,
)
    requires
        forall|transition: Transition<R>| #[trigger]
            enabled.contains(transition) <==> reordered.contains(transition),
        selected(enabled, facts, one),
        selected(reordered, facts, other),
    ensures
        one == other,
{
    assert forall|transition: Transition<R>| #[trigger] one.contains(transition)
        <==> other.contains(transition) by {
        assert(enabled.contains(transition) <==> reordered.contains(transition));
        assert(other.contains(transition) <==> reordered.contains(transition) && !caused(
            facts,
            transition.key@,
        ));
    }
    lemma_same_members(one, other);
}

/// Two ordered lists with the same members are the same.
proof fn lemma_same_members<R>(one: Seq<Transition<R>>, other: Seq<Transition<R>>)
    requires
        in_order(one),
        in_order(other),
        forall|transition: Transition<R>| #[trigger]
            one.contains(transition) <==> other.contains(transition),
    ensures
        one == other,
    decreases one.len(),
{
    if one.len() == 0 {
        if other.len() > 0 {
            assert(other.contains(other[0]));
            assert(one.contains(other[0]));
        }
        assert(one =~= other);
    } else {
        assert(one.contains(one[0]));
        let j = choose|j: int| 0 <= j < other.len() && other[j] == one[0];
        assert(other.contains(other[0]));
        assert(one.contains(other[0]));
        let i = choose|i: int| 0 <= i < one.len() && one[i] == other[0];
        if i > 0 && j > 0 {
            assert(text_before(one[0].key@, one[i].key@));
            assert(text_before(other[0].key@, other[j].key@));
            crate::text::lemma_text_before_transitive(one[0].key@, one[i].key@, one[0].key@);
            crate::text::lemma_text_before_irreflexive(one[0].key@);
        }
        assert(one[0] == other[0]);
        let a = one.drop_first();
        let b = other.drop_first();
        lemma_rest_members(one, other);
        lemma_rest_members(other, one);
        assert(in_order(a)) by {
            assert forall|i: int, j: int| 0 <= i < j < a.len() implies text_before(
                (#[trigger] a[i]).key@,
                (#[trigger] a[j]).key@,
            ) by {
                assert(text_before(one[i + 1].key@, one[j + 1].key@));
            }
        }
        assert(in_order(b)) by {
            assert forall|i: int, j: int| 0 <= i < j < b.len() implies text_before(
                (#[trigger] b[i]).key@,
                (#[trigger] b[j]).key@,
            ) by {
                assert(text_before(other[i + 1].key@, other[j + 1].key@));
            }
        }
        lemma_same_members(a, b);
        assert(one =~= seq![one[0]] + a);
        assert(other =~= seq![other[0]] + b);
    }
}

/// Behind the same first member, members of the one rest are members of the other.
proof fn lemma_rest_members<R>(one: Seq<Transition<R>>, other: Seq<Transition<R>>)
    requires
        one.len() > 0,
        other.len() > 0,
        one[0] == other[0],
        in_order(one),
        forall|transition: Transition<R>| #[trigger]
            one.contains(transition) <==> other.contains(transition),
    ensures
        forall|transition: Transition<R>| #[trigger]
            one.drop_first().contains(transition) ==> other.drop_first().contains(transition),
{
    let a = one.drop_first();
    let b = other.drop_first();
    assert forall|transition: Transition<R>| #[trigger] a.contains(transition) implies b.contains(
        transition,
    ) by {
        let i = choose|i: int| 0 <= i < a.len() && a[i] == transition;
        assert(one[i + 1] == transition);
        assert(one.contains(transition));
        let j = choose|j: int| 0 <= j < other.len() && other[j] == transition;
        if j == 0 {
            assert(text_before(one[0].key@, one[i + 1].key@));
            crate::text::lemma_text_before_irreflexive(one[0].key@);
        }
        assert(b[j - 1] == transition);
    }
}

/// A transition that left facts is finished: its key is a cause in the log that
/// follows, so it is not selected there.
pub proof fn law_performed_is_finished(
    current: Seq<FactModel>,
    produced: Seq<NewFactModel>,
    key: Seq<char>,
)
    requires
        produced.len() > 0,
        !all_recorded(current, produced),
    ensures
        committed(current, produced, Some(key)) matches Ok(next) ==> caused(next, key),
{
    if committed(current, produced, Some(key)) is Ok {
        let stored = numbered(last_seq(current), produced, Some(key));
        let next = current + stored;
        assert(next[current.len() as int] == stored[0]);
        assert(next[current.len() as int].cause == Some(key));
    }
}

/// What is finished stays finished as the log grows.
pub proof fn law_finished_stays(
    current: Seq<FactModel>,
    produced: Seq<NewFactModel>,
    cause: Option<Seq<char>>,
    key: Seq<char>,
)
    requires
        caused(current, key),
    ensures
        committed(current, produced, cause) matches Ok(next) ==> caused(next, key),
{
    if let Ok(next) = committed(current, produced, cause) {
        law_log_grows(current, produced, cause);
        let i = choose|i: int| 0 <= i < current.len() && (#[trigger] current[i]).cause == Some(key);
        assert(next.subrange(0, current.len() as int)[i] == current[i]);
        assert(next[i].cause == Some(key));
    }
}

/// A thread that keeps within its step limit settles or performs within it.
pub proof fn law_steps_stay_within_the_limit<R, V>(
    progress: Progress,
    facts: Seq<FactModel>,
    answer: Result<(V, Vec<Transition<R>>), ActorError>,
    next: Result<Next<R, V>, Exit<ActorError>>,
)
    requires
        progress.steps <= progress.limit,
        follows(progress, facts, answer, next),
    ensures
        next matches Ok(Next::Settled(settlement)) ==> settlement.steps <= progress.limit,
        next matches Ok(Next::Perform { progress: kept, .. }) ==> kept.steps + 1 <= kept.limit,
{
}

/// A component that answers two readings of a log alike: whatever it answers, it
/// enables the same keys on both.
pub open spec fn answers_alike<R, V>(
    component: ErasedComponent<R, V>,
    facts: Seq<Fact>,
    read: Seq<Fact>,
) -> bool {
    forall|view: V, enabled: Seq<Transition<R>>, other: V, again: Seq<Transition<R>>| #[trigger]
        component.shows(facts, view, enabled) && #[trigger] component.shows(read, other, again)
            ==> keys_of(enabled) == keys_of(again)
}

/// Components that each answer two readings of a log alike.
pub open spec fn all_answer_alike<R, V>(
    children: Seq<ErasedComponent<R, V>>,
    facts: Seq<Fact>,
    read: Seq<Fact>,
) -> bool {
    forall|i: int|
        0 <= i < children.len() ==> answers_alike(#[trigger] children[i], facts, read)
}

/// The keys of lists of the same keys, one list behind the other, are the same.
pub proof fn lemma_joined_keys<R>(one: Seq<Seq<Transition<R>>>, other: Seq<Seq<Transition<R>>>)
    requires
        one.len() == other.len(),
        forall|i: int|
            0 <= i < one.len() ==> keys_of(#[trigger] one[i]) == keys_of(other[i]),
    ensures
        keys_of(joined(one)) == keys_of(joined(other)),
    decreases one.len(),
{
    if one.len() > 0 {
        let (a, b) = (one.drop_last(), other.drop_last());
        assert forall|i: int| 0 <= i < a.len() implies keys_of(#[trigger] a[i]) == keys_of(
            b[i],
        ) by {
            assert(a[i] == one[i]);
        }
        lemma_joined_keys(a, b);
        assert(keys_of(one[one.len() - 1]) == keys_of(other[other.len() - 1]));
        assert(keys_of(joined(one)) =~= keys_of(joined(a)) + keys_of(one.last()));
        assert(keys_of(joined(other)) =~= keys_of(joined(b)) + keys_of(other.last()));
    }
}

/// Components that answer alike enable the same keys, taken together.
pub proof fn lemma_shown_alike<R, V>(
    children: Seq<ErasedComponent<R, V>>,
    facts: Seq<Fact>,
    read: Seq<Fact>,
    views: Seq<V>,
    lists: Seq<Seq<Transition<R>>>,
    other_views: Seq<V>,
    other_lists: Seq<Seq<Transition<R>>>,
)
    requires
        all_answer_alike(children, facts, read),
        shown_by(children, facts, views, lists),
        shown_by(children, read, other_views, other_lists),
    ensures
        keys_of(joined(lists)) == keys_of(joined(other_lists)),
{
    assert forall|i: int| 0 <= i < lists.len() implies keys_of(#[trigger] lists[i]) == keys_of(
        other_lists[i],
    ) by {
        assert(answers_alike(children[i], facts, read));
        assert(children[i].shows(facts, views[i], lists[i]));
        assert(children[i].shows(read, other_views[i], other_lists[i]));
    }
    lemma_joined_keys(lists, other_lists);
}

/// Where nothing is selected, nothing is selected from the same keys.
proof fn lemma_nothing_selected<R>(
    enabled: Seq<Transition<R>>,
    again: Seq<Transition<R>>,
    facts: Seq<FactModel>,
    chosen: Seq<Transition<R>>,
)
    requires
        selected(enabled, facts, Seq::empty()),
        selected(again, facts, chosen),
        keys_of(enabled) == keys_of(again),
    ensures
        chosen.len() == 0,
{
    if chosen.len() > 0 {
        let first = chosen[0];
        assert(chosen.contains(first));
        let i = choose|i: int| 0 <= i < again.len() && again[i] == first;
        assert(keys_of(again).len() == keys_of(enabled).len() == enabled.len());
        assert(keys_of(again)[i] == first.key@);
        assert(keys_of(enabled)[i] == enabled[i].key@);
        assert(enabled.contains(enabled[i]));
        assert(!Seq::<Transition<R>>::empty().contains(enabled[i]));
    }
}

/// A settled thread resumes without work. Once an actor has settled on a log, a
/// fresh start on that log, as it was settled or as it is read again, settles at
/// once: in no steps, with the same log, the same cut and an empty trace. Its
/// components may be any that answer the two readings alike.
pub proof fn law_settled_resumes_at_once<R: 'static, V: 'static>(
    actor: Actor<R, V>,
    progress: Progress,
    facts: Seq<Fact>,
    settled: Settlement<V>,
    fresh: Progress,
    read: Seq<Fact>,
    again: Result<Next<R, V>, Exit<ActorError>>,
)
    requires
        decided(progress, actor, facts, Ok(Next::<R, V>::Settled(settled))),
        said(read) == said(settled.log@),
        all_answer_alike(actor.parts(), facts, read),
        fresh.steps == 0,
        told(fresh.trace@) == Seq::<EventModel>::empty(),
        decided(fresh, actor, read, again),
    ensures
        again matches Ok(Next::Settled(resumed)) && {
            &&& resumed.steps == 0
            &&& said(resumed.log@) == said(settled.log@)
            &&& resumed.cut.seq == settled.cut.seq
            &&& resumed.cut.digest@ == settled.cut.digest@
            &&& told(resumed.trace@) == Seq::<EventModel>::empty()
        },
{
    let next = Ok(Next::<R, V>::Settled(settled));
    let (views, lists, answer) = choose|
        views: Seq<V>,
        lists: Seq<Seq<Transition<R>>>,
        answer: Result<(V, Vec<Transition<R>>), ActorError>,
    | #[trigger]
        actor.answers(facts, views, lists, answer) && follows(progress, said(facts), answer, next);
    let (views2, lists2, answer2) = choose|
        views: Seq<V>,
        lists: Seq<Seq<Transition<R>>>,
        answer: Result<(V, Vec<Transition<R>>), ActorError>,
    | #[trigger]
        actor.answers(read, views, lists, answer) && follows(fresh, said(read), answer, again);
    lemma_shown_alike(actor.parts(), facts, read, views, lists, views2, lists2);
    assert(answer->Ok_0.1@ =~= Seq::empty());
    lemma_nothing_selected(joined(lists), joined(lists2), said(read), answer2->Ok_0.1@);
}

/// One append to a log: what a transition left, or, without a cause, what a caller
/// put there.
pub struct AppendModel {
    pub facts: Seq<NewFactModel>,
    pub cause: Option<Seq<char>>,
}

/// The logs of a thread, one append after the other, where each transition was
/// selected on the log as it stood.
pub open spec fn is_history(logs: Seq<Seq<FactModel>>, appends: Seq<AppendModel>) -> bool {
    &&& logs.len() == appends.len() + 1
    &&& forall|i: int|
        0 <= i < appends.len() ==> {
            &&& committed(logs[i], (#[trigger] appends[i]).facts, appends[i].cause) == Ok::<
                Seq<FactModel>,
                Seq<char>,
            >(logs[i + 1])
            &&& appends[i].cause matches Some(key) ==> !caused(logs[i], key)
        }
}

/// What is finished stays finished through the history of a thread.
proof fn lemma_finished_through(
    logs: Seq<Seq<FactModel>>,
    appends: Seq<AppendModel>,
    key: Seq<char>,
    from: int,
    to: int,
)
    requires
        is_history(logs, appends),
        0 <= from <= to < logs.len(),
        caused(logs[from], key),
    ensures
        caused(logs[to], key),
    decreases to - from,
{
    if from < to {
        law_finished_stays(logs[from], appends[from].facts, appends[from].cause, key);
        lemma_finished_through(logs, appends, key, from + 1, to);
    }
}

/// Finished work is not repeated: in the history of a thread, a transition that
/// left new facts is not performed again, whatever else is appended between.
pub proof fn law_finished_work_is_not_repeated(
    logs: Seq<Seq<FactModel>>,
    appends: Seq<AppendModel>,
    key: Seq<char>,
    done: int,
    later: int,
)
    requires
        is_history(logs, appends),
        0 <= done < later < appends.len(),
        appends[done].cause == Some(key),
        appends[done].facts.len() > 0,
        !all_recorded(logs[done], appends[done].facts),
    ensures
        appends[later].cause != Some(key),
{
    law_performed_is_finished(logs[done], appends[done].facts, key);
    lemma_finished_through(logs, appends, key, done + 1, later);
}

} // verus!
