//! Components inside components: mounts, and the prefixes that keep the keys of
//! their transitions apart.

use vstd::prelude::*;

use crate::actor::{all_accept, all_answer_alike, answers_alike, gather, joined, keys_of,
    lemma_shown_alike, mergeable, merged, shown_by, Component, ErasedComponent, ErasedMerge,
    Transition};
use crate::fact::Fact;
use crate::text::{chars_of, concat3, lemma_mark_splits};

verus! {

/// A text without the slashes at its start.
pub open spec fn trimmed_start(text: Seq<char>) -> Seq<char>
    decreases text.len(),
{
    if text.len() > 0 && text[0] == '/' {
        trimmed_start(text.drop_first())
    } else {
        text
    }
}

/// A text without the slashes at its end.
pub open spec fn trimmed_end(text: Seq<char>) -> Seq<char>
    decreases text.len(),
{
    if text.len() > 0 && text.last() == '/' {
        trimmed_end(text.drop_last())
    } else {
        text
    }
}

/// A text without the slashes around it.
pub open spec fn trimmed(text: Seq<char>) -> Seq<char> {
    trimmed_end(trimmed_start(text))
}

fn trim_slashes(text: &str) -> (kept: String)
    ensures
        kept@ == trimmed(text@),
{
    let chars = chars_of(text);
    let mut from: usize = 0;
    assert(text@.skip(0) =~= text@);
    while from < chars.len() && chars[from] == '/'
        invariant
            from <= chars@.len(),
            chars@ == text@,
            trimmed_start(text@) == trimmed_start(text@.skip(from as int)),
        decreases chars.len() - from,
    {
        assert(text@.skip(from as int).drop_first() =~= text@.skip(from + 1));
        from += 1;
    }
    let ghost rest = text@.skip(from as int);
    let mut to: usize = chars.len();
    assert(text@.subrange(from as int, to as int) =~= rest);
    while from < to && chars[to - 1] == '/'
        invariant
            from <= to <= chars@.len(),
            chars@ == text@,
            trimmed_end(rest) == trimmed_end(text@.subrange(from as int, to as int)),
        decreases to,
    {
        let ghost upto = text@.subrange(from as int, to as int);
        assert(upto.last() == chars@[to - 1]);
        assert(upto.drop_last() =~= text@.subrange(from as int, to - 1));
        to -= 1;
    }
    let mut kept = String::new();
    let mut i: usize = from;
    while i < to
        invariant
            from <= i <= to <= chars@.len(),
            chars@ == text@,
            kept@ == text@.subrange(from as int, i as int),
        decreases to - i,
    {
        kept.push(chars[i]);
        i += 1;
        assert(text@.subrange(from as int, i as int) =~= text@.subrange(from as int, i - 1).push(
            text@[i - 1],
        ));
    }
    proof {
        let last = text@.subrange(from as int, to as int);
        assert(last.len() > 0 ==> last.last() == chars@[to - 1]);
    }
    kept
}

/// A key under a prefix. Slashes around the prefix do not count, and an empty
/// prefix leaves the key as it is.
pub open spec fn namespaced_key(prefix: Seq<char>, key: Seq<char>) -> Seq<char> {
    if trimmed(prefix).len() == 0 {
        key
    } else {
        trimmed(prefix) + "/"@ + key
    }
}

/// The same work, with every key under a prefix.
pub open spec fn namespaced<R>(
    prefix: Seq<char>,
    before: Seq<Transition<R>>,
    after: Seq<Transition<R>>,
) -> bool {
    &&& after.len() == before.len()
    &&& forall|i: int|
        0 <= i < before.len() ==> (#[trigger] after[i]).key@ == namespaced_key(
            prefix,
            before[i].key@,
        ) && after[i].run == before[i].run
}

/// Prefixes every enabled transition key.
pub fn namespace_transitions<R>(prefix: &str, transitions: Vec<Transition<R>>) -> (named: Vec<
    Transition<R>,
>)
    ensures
        namespaced(prefix@, transitions@, named@),
{
    let ghost before = transitions@;
    let kept = trim_slashes(prefix);
    let mut named = transitions;
    if kept.as_str().is_empty() {
        return named;
    }
    let mut i: usize = 0;
    while i < named.len()
        invariant
            i <= named@.len(),
            named@.len() == before.len(),
            kept@ == trimmed(prefix@),
            kept@.len() > 0,
            forall|k: int|
                0 <= k < i ==> (#[trigger] named@[k]).key@ == namespaced_key(
                    prefix@,
                    before[k].key@,
                ) && named@[k].run == before[k].run,
            forall|k: int| i <= k < before.len() ==> #[trigger] named@[k] == before[k],
        decreases named.len() - i,
    {
        let key = concat3(kept.as_str(), "/", named[i].key.as_str());
        named[i].key = key;
        i += 1;
    }
    named
}

/// A component under a prefix.
#[verifier::reject_recursive_types(R)]
#[verifier::reject_recursive_types(V)]
struct Namespaced<R, V> {
    prefix: String,
    inner: ErasedComponent<R, V>,
}

/// What a component under a prefix may answer with.
pub open spec fn shows_namespaced<R, V>(
    prefix: Seq<char>,
    inner: ErasedComponent<R, V>,
    facts: Seq<Fact>,
    view: V,
    enabled: Seq<Transition<R>>,
) -> bool {
    exists|before: Seq<Transition<R>>| #[trigger]
        inner.shows(facts, view, before) && namespaced(prefix, before, enabled)
}

impl<R, V> Component<R, V> for Namespaced<R, V> {
    closed spec fn accepts(&self, facts: Seq<Fact>) -> bool {
        self.inner.accepts(facts)
    }

    closed spec fn shows(&self, facts: Seq<Fact>, view: V, enabled: Seq<Transition<R>>) -> bool {
        shows_namespaced(self.prefix@, self.inner, facts, view, enabled)
    }

    fn project(&self, facts: &[Fact]) -> (shown: (V, Vec<Transition<R>>)) {
        let (view, transitions) = self.inner.project(facts);
        (view, namespace_transitions(self.prefix.as_str(), transitions))
    }
}

/// Wraps a component so that every transition it enables carries the prefix.
pub fn with_key_namespace<R: 'static, V: 'static>(prefix: &str, inner: ErasedComponent<R, V>) -> (
made: ErasedComponent<R, V>)
    ensures
        forall|facts: Seq<Fact>| #[trigger] made.accepts(facts) == inner.accepts(facts),
        forall|facts: Seq<Fact>, view: V, enabled: Seq<Transition<R>>| #[trigger]
            made.shows(facts, view, enabled) == shows_namespaced(
                prefix@,
                inner,
                facts,
                view,
                enabled,
            ),
{
    ErasedComponent { inner: Box::new(Namespaced { prefix: prefix.to_owned(), inner }) }
}

/// Several components as one, under a prefix.
#[verifier::reject_recursive_types(R)]
#[verifier::reject_recursive_types(V)]
struct Mounted<R, V> {
    prefix: String,
    children: Vec<ErasedComponent<R, V>>,
    merge: ErasedMerge<V>,
}

/// What several components that are mounted as one may answer with: their views
/// merged, their transitions one behind the other under the prefix.
pub open spec fn shows_mounted<R, V: 'static>(
    prefix: Seq<char>,
    children: Seq<ErasedComponent<R, V>>,
    merge: ErasedMerge<V>,
    facts: Seq<Fact>,
    view: V,
    enabled: Seq<Transition<R>>,
) -> bool {
    exists|views: Seq<V>, lists: Seq<Seq<Transition<R>>>| #[trigger]
        shown_by(children, facts, views, lists) && merge.merges(views, view) && namespaced(
            prefix,
            joined(lists),
            enabled,
        )
}

/// Several components that are mounted as one can be shown these facts.
pub open spec fn accepts_mounted<R, V: 'static>(
    children: Seq<ErasedComponent<R, V>>,
    merge: ErasedMerge<V>,
    facts: Seq<Fact>,
) -> bool {
    &&& all_accept(children, facts)
    &&& forall|views: Seq<V>, lists: Seq<Seq<Transition<R>>>| #[trigger]
        shown_by(children, facts, views, lists) ==> merge.accepts(views)
}

impl<R, V: 'static> Component<R, V> for Mounted<R, V> {
    closed spec fn accepts(&self, facts: Seq<Fact>) -> bool {
        accepts_mounted(self.children@, self.merge, facts)
    }

    closed spec fn shows(&self, facts: Seq<Fact>, view: V, enabled: Seq<Transition<R>>) -> bool {
        shows_mounted(self.prefix@, self.children@, self.merge, facts, view, enabled)
    }

    fn project(&self, facts: &[Fact]) -> (shown: (V, Vec<Transition<R>>)) {
        let (views, transitions) = gather(&self.children, facts);
        let view = self.merge.merge(views);
        (view, namespace_transitions(self.prefix.as_str(), transitions))
    }
}

/// Mounts several components as one. Their views are merged from the first to the
/// last; their transitions stand one behind the other under the prefix.
pub fn mount<R: 'static, V: 'static, F: Fn(Vec<V>) -> V + Send + Sync + 'static>(
    prefix: &str,
    children: Vec<ErasedComponent<R, V>>,
    merge: F,
) -> (made: ErasedComponent<R, V>)
    ensures
        exists|merging: ErasedMerge<V>| #[trigger]
            is_mount(made, prefix@, children@, merging) && is_merge(merging, merge),
{
    let ghost parts = children@;
    let merging = ErasedMerge::new(merge);
    let made = ErasedComponent {
        inner: Box::new(Mounted { prefix: prefix.to_owned(), children, merge: merging }),
    };
    assert(is_mount(made, prefix@, parts, merging) && is_merge(merging, merge));
    made
}

/// The merge of this function.
pub open spec fn is_merge<V: 'static, F: Fn(Vec<V>) -> V>(merging: ErasedMerge<V>, f: F) -> bool {
    &&& forall|views: Seq<V>| #[trigger] merging.accepts(views) == mergeable(f, views)
    &&& forall|views: Seq<V>, view: V| #[trigger]
        merging.merges(views, view) == merged(f, views, view)
}

/// The mount of these components.
pub open spec fn is_mount<R, V: 'static>(
    made: ErasedComponent<R, V>,
    prefix: Seq<char>,
    children: Seq<ErasedComponent<R, V>>,
    merging: ErasedMerge<V>,
) -> bool {
    &&& forall|facts: Seq<Fact>| #[trigger]
        made.accepts(facts) == accepts_mounted(children, merging, facts)
    &&& forall|facts: Seq<Fact>, view: V, enabled: Seq<Transition<R>>| #[trigger]
        made.shows(facts, view, enabled) == shows_mounted(
            prefix,
            children,
            merging,
            facts,
            view,
            enabled,
        )
}

/// A prefix of one segment: without slashes, once those around it are gone.
pub open spec fn one_segment(prefix: Seq<char>) -> bool {
    &&& trimmed(prefix).len() > 0
    &&& forall|i: int| 0 <= i < trimmed(prefix).len() ==> #[trigger] trimmed(prefix)[i] != '/'
}

/// What a prefix puts in front of a key.
pub open spec fn key_head(prefix: Seq<char>) -> Seq<char> {
    trimmed(prefix) + "/"@
}

/// Siblings cannot collide, whatever their keys are, where neither puts in front of
/// its keys what starts with all that the other puts in front of its own.
pub proof fn law_siblings_cannot_collide(
    prefix: Seq<char>,
    other: Seq<char>,
    key: Seq<char>,
    other_key: Seq<char>,
)
    requires
        trimmed(prefix).len() > 0,
        trimmed(other).len() > 0,
        !key_head(prefix).is_prefix_of(key_head(other)),
        !key_head(other).is_prefix_of(key_head(prefix)),
    ensures
        namespaced_key(prefix, key) != namespaced_key(other, other_key),
{
    let (a, b) = (key_head(prefix), key_head(other));
    if a + key == b + other_key {
        let whole = a + key;
        assert(whole.take(a.len() as int) =~= a);
        assert((b + other_key).take(b.len() as int) =~= b);
        if a.len() <= b.len() {
            assert(a =~= b.subrange(0, a.len() as int));
        } else {
            assert(b =~= a.subrange(0, b.len() as int));
        }
    }
}

/// Siblings under different prefixes of one segment cannot collide, whatever their
/// keys are.
pub proof fn law_one_segment_siblings_cannot_collide(
    prefix: Seq<char>,
    other: Seq<char>,
    key: Seq<char>,
    other_key: Seq<char>,
)
    requires
        one_segment(prefix),
        one_segment(other),
        trimmed(prefix) != trimmed(other),
    ensures
        namespaced_key(prefix, key) != namespaced_key(other, other_key),
{
    reveal_strlit("/");
    assert("/"@ =~= seq!['/']);
    if namespaced_key(prefix, key) == namespaced_key(other, other_key) {
        lemma_mark_splits(trimmed(prefix), key, trimmed(other), other_key, '/');
    }
}

/// A mount answers two readings of a log alike where its components do.
pub proof fn law_mount_answers_alike<R, V: 'static>(
    made: ErasedComponent<R, V>,
    prefix: Seq<char>,
    children: Seq<ErasedComponent<R, V>>,
    merging: ErasedMerge<V>,
    facts: Seq<Fact>,
    read: Seq<Fact>,
)
    requires
        is_mount(made, prefix, children, merging),
        all_answer_alike(children, facts, read),
    ensures
        answers_alike(made, facts, read),
{
    assert forall|view: V, enabled: Seq<Transition<R>>, other: V, again: Seq<Transition<R>>|
        #[trigger] made.shows(facts, view, enabled) && #[trigger] made.shows(
            read,
            other,
            again,
        ) implies keys_of(enabled) == keys_of(again) by {
        let (views, lists) = choose|views: Seq<V>, lists: Seq<Seq<Transition<R>>>| #[trigger]
            shown_by(children, facts, views, lists) && merging.merges(views, view) && namespaced(
                prefix,
                joined(lists),
                enabled,
            );
        let (views2, lists2) = choose|views: Seq<V>, lists: Seq<Seq<Transition<R>>>| #[trigger]
            shown_by(children, read, views, lists) && merging.merges(views, other) && namespaced(
                prefix,
                joined(lists),
                again,
            );
        lemma_shown_alike(children, facts, read, views, lists, views2, lists2);
        assert(keys_of(joined(lists)).len() == keys_of(joined(lists2)).len());
        assert forall|i: int| 0 <= i < enabled.len() implies keys_of(enabled)[i] == #[trigger] keys_of(
            again,
        )[i] by {
            assert(keys_of(joined(lists))[i] == joined(lists)[i].key@);
            assert(keys_of(joined(lists2))[i] == joined(lists2)[i].key@);
            assert(enabled[i].key@ == namespaced_key(prefix, joined(lists)[i].key@));
            assert(again[i].key@ == namespaced_key(prefix, joined(lists2)[i].key@));
        }
        assert(keys_of(enabled) =~= keys_of(again));
    }
}

/// Keys that differ still differ under the same prefix.
pub proof fn law_prefix_keeps_keys_apart(prefix: Seq<char>, key: Seq<char>, other: Seq<char>)
    requires
        key != other,
    ensures
        namespaced_key(prefix, key) != namespaced_key(prefix, other),
{
    let head = trimmed(prefix) + "/"@;
    assert((head + key).skip(head.len() as int) =~= key);
    assert((head + other).skip(head.len() as int) =~= other);
}

} // verus!
