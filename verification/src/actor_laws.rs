//! What settling a thread is for: which work comes next, when a thread has settled,
//! and how keys are kept apart.

use vstd::prelude::*;

use crate::actor::mount::{is_merge, is_mount, namespaced, namespaced_key, shows_namespaced, trimmed,
    trimmed_end, trimmed_start};
use crate::actor::{answered, caused, decided, first_repeat, folded, joined, keys_of, merged, reached,
    selected, shown_by, Actor, ErasedComponent, ErasedMerge, Next, Progress, Transition};
use crate::effect::told;
use crate::error::{ActorError, ErrorModel};
use crate::exit::Exit;
use crate::fact::{hex, log_bytes, said, sha256, Fact, FactModel};
use crate::text::text_before;

verus! {

/// A fold takes the facts from the first to the last, each once.
pub proof fn law_facts_are_folded_in_order<M>(
    first: M,
    next: spec_fn(M, FactModel) -> M,
    facts: Seq<FactModel>,
    fact: FactModel,
)
    ensures
        folded(first, next, Seq::empty()) == first,
        folded(first, next, facts.push(fact)) == next(folded(first, next, facts), fact),
{
    assert(facts.push(fact).drop_last() =~= facts);
}

/// The lists of components stand one behind the other, whole and in order.
pub proof fn law_lists_are_joined_in_order<T>(lists: Seq<Seq<T>>, list: Seq<T>)
    ensures
        joined(Seq::<Seq<T>>::empty()).len() == 0,
        joined(lists.push(list)) == joined(lists) + list,
{
    assert(lists.push(list).drop_last() =~= lists);
}

/// A key that two transitions share is found: the first one that stands a second
/// time. Where all keys differ, none is.
pub proof fn law_shared_keys_are_found(keys: Seq<Seq<char>>)
    ensures
        first_repeat(keys) matches Some(key) ==> exists|i: int, j: int|
            0 <= i < j < keys.len() && #[trigger] keys[i] == key && #[trigger] keys[j] == key && (
            forall|a: int, b: int|
                0 <= a < b < j ==> #[trigger] keys[a] != #[trigger] keys[b]),
        first_repeat(keys) is None <==> (forall|i: int, j: int|
            0 <= i < j < keys.len() ==> #[trigger] keys[i] != #[trigger] keys[j]),
    decreases keys.len(),
{
    if keys.len() > 0 {
        let rest = keys.drop_last();
        law_shared_keys_are_found(rest);
        assert(forall|i: int| 0 <= i < rest.len() ==> #[trigger] rest[i] == keys[i]);
        let n = keys.len() - 1;
        if first_repeat(rest) is Some {
            let key = first_repeat(rest)->Some_0;
            let (i, j) = choose|i: int, j: int|
                0 <= i < j < rest.len() && #[trigger] rest[i] == key && #[trigger] rest[j] == key
                    && (forall|a: int, b: int|
                    0 <= a < b < j ==> #[trigger] rest[a] != #[trigger] rest[b]);
            assert(keys[i] == key && keys[j] == key);
            assert forall|a: int, b: int| 0 <= a < b < j implies #[trigger] keys[a]
                != #[trigger] keys[b] by {
                assert(rest[a] != rest[b]);
            }
        } else if rest.contains(keys.last()) {
            let i = choose|i: int| 0 <= i < rest.len() && rest[i] == keys.last();
            assert(keys[i] == keys.last() && keys[n] == keys.last());
            assert forall|a: int, b: int| 0 <= a < b < n implies #[trigger] keys[a]
                != #[trigger] keys[b] by {
                assert(rest[a] != rest[b]);
            }
        } else {
            assert forall|a: int, b: int| 0 <= a < b < keys.len() implies #[trigger] keys[a]
                != #[trigger] keys[b] by {
                if b < n {
                    assert(rest[a] != rest[b]);
                } else {
                    assert(rest.contains(rest[a]));
                }
            }
        }
    }
}

/// All keys of transitions differ.
pub open spec fn keys_differ<R>(all: Seq<Transition<R>>) -> bool {
    forall|i: int, j: int|
        0 <= i < j < all.len() ==> (#[trigger] all[i]).key@ != (#[trigger] all[j]).key@
}

/// Work that is enabled and not finished.
pub open spec fn open_work<R>(
    all: Seq<Transition<R>>,
    facts: Seq<FactModel>,
    transition: Transition<R>,
) -> bool {
    all.contains(transition) && (forall|i: int|
        0 <= i < facts.len() ==> (#[trigger] facts[i]).cause != Some(transition.key@))
}

/// What a thread does next is decided by what its components enable on the log.
///
/// It performs the open work whose key comes first, while steps are left. It has
/// settled where no work is open: on the log as it was read, with the steps and the
/// trace that led there. It fails where two transitions share a key, and where work
/// is open and no step is left.
pub open spec fn next_is_right<R: 'static, V: 'static>(
    progress: Progress,
    actor: Actor<R, V>,
    facts: Seq<Fact>,
    views: Seq<V>,
    all: Seq<Transition<R>>,
    next: Result<Next<R, V>, Exit<ActorError>>,
) -> bool {
    match next {
        Ok(Next::Perform { progress: kept, transition }) => {
            &&& kept == progress
            &&& keys_differ(all)
            &&& progress.steps < progress.limit
            &&& open_work(all, said(facts), transition)
            &&& forall|other: Transition<R>| #[trigger]
                open_work(all, said(facts), other) && other != transition ==> text_before(
                    transition.key@,
                    other.key@,
                )
        },
        Ok(Next::Settled(settlement)) => {
            &&& keys_differ(all)
            &&& forall|other: Transition<R>| !#[trigger] open_work(all, said(facts), other)
            &&& actor.merging().merges(views, settlement.view)
            &&& said(settlement.log@) == said(facts)
            &&& settlement.steps == progress.steps
            &&& told(settlement.trace@) == told(progress.trace@)
            &&& settlement.cut.seq == if facts.len() == 0 {
                0
            } else {
                facts.last().seq
            }
            &&& settlement.cut.digest@ == hex(sha256(log_bytes(said(facts))))
        },
        Err(Exit::Fail(error)) => {
            ||| !keys_differ(all) && (error@ matches ErrorModel::DuplicateTransition { key }
                && exists|i: int, j: int|
                0 <= i < j < all.len() && (#[trigger] all[i]).key@ == key && (
                #[trigger] all[j]).key@ == key)
            ||| keys_differ(all) && progress.steps >= progress.limit && error@ == (
            ErrorModel::StepLimit { limit: progress.limit }) && exists|other: Transition<R>|
                #[trigger] open_work(all, said(facts), other)
        },
        Err(_) => false,
    }
}

/// What a thread does next is right for some answer of its components to the log.
pub proof fn law_the_first_open_work_is_next<R: 'static, V: 'static>(
    progress: Progress,
    actor: Actor<R, V>,
    facts: Seq<Fact>,
    next: Result<Next<R, V>, Exit<ActorError>>,
)
    requires
        decided(progress, actor, facts, next),
    ensures
        exists|views: Seq<V>, lists: Seq<Seq<Transition<R>>>| #[trigger]
            shown_by(actor.parts(), facts, views, lists) && next_is_right(
                progress,
                actor,
                facts,
                views,
                joined(lists),
                next,
            ),
{
    let (views, lists, answer) = choose|
        views: Seq<V>,
        lists: Seq<Seq<Transition<R>>>,
        answer: Result<(V, Vec<Transition<R>>), ActorError>,
    | #[trigger]
        actor.answers(facts, views, lists, answer) && crate::actor::follows(
            progress,
            said(facts),
            answer,
            next,
        );
    let all = joined(lists);
    let keys = keys_of(all);
    law_shared_keys_are_found(keys);
    assert(keys.len() == all.len());
    assert(forall|i: int| 0 <= i < all.len() ==> #[trigger] keys[i] == all[i].key@);
    assert(keys_differ(all) <==> first_repeat(keys) is None) by {
        if keys_differ(all) {
            assert forall|i: int, j: int| 0 <= i < j < keys.len() implies #[trigger] keys[i]
                != #[trigger] keys[j] by {
                assert(all[i].key@ != all[j].key@);
            }
        } else {
            let (i, j) = choose|i: int, j: int|
                0 <= i < j < all.len() && (#[trigger] all[i]).key@ == (#[trigger] all[j]).key@;
            assert(keys[i] == keys[j]);
        }
    }
    assert(shown_by(actor.parts(), facts, views, lists));
    if first_repeat(keys) is Some {
        let key = first_repeat(keys)->Some_0;
        let (i, j) = choose|i: int, j: int|
            0 <= i < j < keys.len() && #[trigger] keys[i] == key && #[trigger] keys[j] == key;
        assert(all[i].key@ == key && all[j].key@ == key);
    } else {
        let chosen = answer->Ok_0.1@;
        assert forall|other: Transition<R>| #[trigger] open_work(all, said(facts), other)
            <==> chosen.contains(other) by {
            assert(chosen.contains(other) <==> all.contains(other) && !caused(
                said(facts),
                other.key@,
            ));
        }
        assert(said(facts).len() == facts.len());
        if facts.len() > 0 {
            assert(said(facts).last() == facts.last()@);
        }
        if chosen.len() == 0 {
            assert forall|other: Transition<R>| !#[trigger] open_work(all, said(facts), other) by {
                assert(!chosen.contains(other));
            }
        } else {
            assert(chosen.contains(chosen[0]));
            assert(open_work(all, said(facts), chosen[0]));
            assert forall|other: Transition<R>| #[trigger]
                open_work(all, said(facts), other) && other != chosen[0] implies text_before(
                chosen[0].key@,
                other.key@,
            ) by {
                let j = choose|j: int| 0 <= j < chosen.len() && chosen[j] == other;
                assert(text_before(chosen[0].key@, chosen[j].key@));
            }
        }
    }
}

/// What is selected is every open work and nothing else, by its keys in order.
pub proof fn law_all_open_work_is_selected<R>(
    all: Seq<Transition<R>>,
    facts: Seq<FactModel>,
    chosen: Seq<Transition<R>>,
    transition: Transition<R>,
    i: int,
    j: int,
)
    requires
        selected(all, facts, chosen),
    ensures
        chosen.contains(transition) <==> open_work(all, facts, transition),
        0 <= i < j < chosen.len() ==> text_before(chosen[i].key@, chosen[j].key@),
{
    assert(chosen.contains(transition) <==> all.contains(transition) && !caused(
        facts,
        transition.key@,
    ));
}

/// A merge takes the views as they are listed.
pub proof fn law_merges_take_the_views_in_order<V, F: Fn(Vec<V>) -> V>(
    f: F,
    views: Seq<V>,
    view: V,
)
    requires
        merged(f, views, view),
    ensures
        exists|given: Vec<V>| #[trigger] f.ensures((given,), view) && given@ == views,
{
}

/// A text of slashes.
pub open spec fn slashes(text: Seq<char>) -> bool {
    forall|i: int| 0 <= i < text.len() ==> #[trigger] text[i] == '/'
}

/// A prefix loses the slashes at its ends, all of them and nothing else.
pub proof fn law_prefixes_lose_their_outer_slashes(prefix: Seq<char>)
    ensures
        exists|head: Seq<char>, tail: Seq<char>|
            #![trigger slashes(head), slashes(tail)]
            slashes(head) && slashes(tail) && prefix == head + trimmed(prefix) + tail,
        trimmed(prefix).len() > 0 ==> trimmed(prefix)[0] != '/' && trimmed(prefix).last() != '/',
{
    lemma_start(prefix);
    let rest = trimmed_start(prefix);
    lemma_end(rest);
    let head = choose|head: Seq<char>| #[trigger] slashes(head) && prefix == head + rest;
    let tail = choose|tail: Seq<char>| #[trigger] slashes(tail) && rest == trimmed_end(rest) + tail;
    assert(prefix =~= head + trimmed(prefix) + tail);
    assert(slashes(head) && slashes(tail));
    if trimmed(prefix).len() > 0 {
        assert(rest[0] == trimmed(prefix)[0]);
    }
}

proof fn lemma_start(text: Seq<char>)
    ensures
        exists|head: Seq<char>| #[trigger] slashes(head) && text == head + trimmed_start(text),
        trimmed_start(text).len() > 0 ==> trimmed_start(text)[0] != '/',
    decreases text.len(),
{
    if text.len() > 0 && text[0] == '/' {
        lemma_start(text.drop_first());
        let head = choose|head: Seq<char>| #[trigger]
            slashes(head) && text.drop_first() == head + trimmed_start(text.drop_first());
        let more = seq!['/'] + head;
        assert forall|i: int| 0 <= i < more.len() implies #[trigger] more[i] == '/' by {
            if i > 0 {
                assert(more[i] == head[i - 1]);
            }
        }
        assert(slashes(more));
        assert(text =~= seq!['/'] + text.drop_first());
        assert(text =~= more + trimmed_start(text));
    } else {
        let none = Seq::<char>::empty();
        assert(slashes(none));
        assert(text =~= none + trimmed_start(text));
    }
}

proof fn lemma_end(text: Seq<char>)
    ensures
        exists|tail: Seq<char>| #[trigger] slashes(tail) && text == trimmed_end(text) + tail,
        trimmed_end(text).len() > 0 ==> trimmed_end(text).last() != '/',
    decreases text.len(),
{
    if text.len() > 0 && text.last() == '/' {
        lemma_end(text.drop_last());
        let tail = choose|tail: Seq<char>| #[trigger]
            slashes(tail) && text.drop_last() == trimmed_end(text.drop_last()) + tail;
        let more = tail.push('/');
        assert forall|i: int| 0 <= i < more.len() implies #[trigger] more[i] == '/' by {
            if i < tail.len() {
                assert(more[i] == tail[i]);
            }
        }
        assert(slashes(more));
        assert(text =~= text.drop_last().push('/'));
        assert(text =~= trimmed_end(text) + more);
    } else {
        let none = Seq::<char>::empty();
        assert(slashes(none));
        assert(text =~= trimmed_end(text) + none);
    }
}

/// Under a prefix, every transition keeps its work and its place, and its key stands
/// behind the prefix and a slash. A prefix of slashes alone changes no key.
pub proof fn law_prefixes_stand_before_the_keys<R>(
    prefix: Seq<char>,
    before: Seq<Transition<R>>,
    after: Seq<Transition<R>>,
    at: int,
)
    requires
        namespaced(prefix, before, after),
    ensures
        after.len() == before.len(),
        0 <= at < before.len() ==> after[at].run == before[at].run,
        0 <= at < before.len() && !slashes(prefix) ==> after[at].key@ == trimmed(prefix) + "/"@
            + before[at].key@,
        0 <= at < before.len() && slashes(prefix) ==> after[at].key@ == before[at].key@,
{
    if 0 <= at < before.len() {
        assert(after[at].key@ == namespaced_key(prefix, before[at].key@));
        law_prefixes_lose_their_outer_slashes(prefix);
        let (head, tail) = choose|head: Seq<char>, tail: Seq<char>|
            #![trigger slashes(head), slashes(tail)]
            slashes(head) && slashes(tail) && prefix == head + trimmed(prefix) + tail;
        if trimmed(prefix).len() == 0 {
            assert forall|i: int| 0 <= i < prefix.len() implies #[trigger] prefix[i] == '/' by {
                if i < head.len() {
                    assert(prefix[i] == head[i]);
                } else {
                    assert(prefix[i] == tail[i - head.len()]);
                }
            }
        } else {
            assert(prefix[head.len() as int] == trimmed(prefix)[0]);
        }
    }
}

/// A mount shows the merged views of its components and enables all that they enable,
/// in order, with the prefix in front of every key.
pub proof fn law_mounts_show_their_components<R, V: 'static>(
    made: ErasedComponent<R, V>,
    prefix: Seq<char>,
    children: Seq<ErasedComponent<R, V>>,
    merging: ErasedMerge<V>,
    facts: Seq<Fact>,
    view: V,
    enabled: Seq<Transition<R>>,
)
    requires
        is_mount(made, prefix, children, merging),
        made.shows(facts, view, enabled),
    ensures
        exists|views: Seq<V>, lists: Seq<Seq<Transition<R>>>| #[trigger]
            shown_by(children, facts, views, lists) && merging.merges(views, view) && namespaced(
                prefix,
                joined(lists),
                enabled,
            ),
{
}

/// A mount that is made with a function shows what that function makes of the views
/// of the components, one from each.
pub proof fn law_mounts_merge_with_their_function<R, V: 'static, F: Fn(Vec<V>) -> V>(
    made: ErasedComponent<R, V>,
    prefix: Seq<char>,
    children: Seq<ErasedComponent<R, V>>,
    merging: ErasedMerge<V>,
    f: F,
    facts: Seq<Fact>,
    view: V,
    enabled: Seq<Transition<R>>,
)
    requires
        is_mount(made, prefix, children, merging),
        is_merge(merging, f),
        made.shows(facts, view, enabled),
    ensures
        exists|views: Vec<V>, lists: Seq<Seq<Transition<R>>>| #[trigger]
            f.ensures((views,), view) && #[trigger] shown_by(children, facts, views@, lists),
{
    let (views, lists) = choose|views: Seq<V>, lists: Seq<Seq<Transition<R>>>| #[trigger]
        shown_by(children, facts, views, lists) && merging.merges(views, view) && namespaced(
            prefix,
            joined(lists),
            enabled,
        );
    assert(merged(f, views, view));
    let list = choose|list: Vec<V>| list@ == views && #[trigger] f.ensures((list,), view);
    assert(f.ensures((list,), view) && shown_by(children, facts, list@, lists));
}

/// A mount can be shown what all its components can be shown, where its function takes
/// every list of views.
pub proof fn law_mounts_accept_what_their_components_accept<R, V: 'static, F: Fn(Vec<V>) -> V>(
    made: ErasedComponent<R, V>,
    prefix: Seq<char>,
    children: Seq<ErasedComponent<R, V>>,
    merging: ErasedMerge<V>,
    f: F,
    facts: Seq<Fact>,
)
    requires
        is_mount(made, prefix, children, merging),
        is_merge(merging, f),
        forall|views: Vec<V>| #[trigger] f.requires((views,)),
    ensures
        made.accepts(facts) <==> forall|i: int|
            0 <= i < children.len() ==> (#[trigger] children[i]).accepts(facts),
{
}

/// A component under a prefix shows what it shows without, and enables the same work
/// under keys with the prefix in front.
pub proof fn law_prefixed_components_show_the_same<R, V>(
    prefix: Seq<char>,
    inner: ErasedComponent<R, V>,
    facts: Seq<Fact>,
    view: V,
    enabled: Seq<Transition<R>>,
)
    requires
        shows_namespaced(prefix, inner, facts, view, enabled),
    ensures
        exists|before: Seq<Transition<R>>| #[trigger]
            inner.shows(facts, view, before) && namespaced(prefix, before, enabled),
{
}

/// Every component answers for itself: each is shown the same facts, and its view and
/// its transitions stand at its place.
pub proof fn law_every_component_answers<R, V>(
    children: Seq<ErasedComponent<R, V>>,
    facts: Seq<Fact>,
    views: Seq<V>,
    lists: Seq<Seq<Transition<R>>>,
    at: int,
)
    requires
        shown_by(children, facts, views, lists),
    ensures
        views.len() == children.len(),
        lists.len() == children.len(),
        0 <= at < children.len() ==> children[at].shows(facts, views[at], lists[at]),
{
}

/// A component that is made from a first state, a step and an output answers with the
/// output of the state that the facts lead to, one step for each.
pub proof fn law_machines_answer_from_their_state<R, V, St, I, Step, Out>(
    initial: I,
    step: Step,
    output: Out,
    facts: Seq<Fact>,
    view: V,
    enabled: Seq<Transition<R>>,
    state: St,
) where I: Fn() -> St, Step: Fn(St, &Fact) -> St, Out: Fn(&St) -> (V, Vec<Transition<R>>)
    ensures
        answered(initial, step, output, facts, view, enabled) ==> exists|
            last: St,
            shown: (V, Vec<Transition<R>>),
        |
            reached(initial, step, facts, last) && #[trigger] output.ensures((&last,), shown)
                && shown.0 == view && shown.1@ == enabled,
        reached(initial, step, Seq::empty(), state) <==> initial.ensures((), state),
        facts.len() > 0 ==> (reached(initial, step, facts, state) <==> exists|before: St|
            reached(initial, step, facts.drop_last(), before) && #[trigger] step.ensures(
                (before, &facts.last()),
                state,
            )),
{
}

} // verus!
