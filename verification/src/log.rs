//! The rules of a fact log, and the log that keeps its threads in memory.
//!
//! A log only grows. Appending facts that are all there already changes nothing;
//! appending a key that is taken otherwise is refused.

use vstd::prelude::*;

use crate::error::{ActorError, ErrorModel};
use crate::fact::{copy_facts, last_seq, said, said_new, Fact, FactModel, NewFact, NewFactModel};
use crate::json::{json_same, lemma_json_same_reflexive, same_json};
use crate::text::{chars_of, same_text, str_opt};

verus! {

/// The characters that a thread id is made of.
pub open spec fn thread_char(c: char) -> bool {
    ||| '0' <= c <= '9'
    ||| 'A' <= c <= 'Z'
    ||| 'a' <= c <= 'z'
    ||| c == '_' || c == '.' || c == ':' || c == '-'
}

/// A thread id: between 1 and 128 of those characters, so a single path segment.
pub open spec fn is_thread_id(id: Seq<char>) -> bool {
    &&& 1 <= id.len() <= 128
    &&& forall|i: int| 0 <= i < id.len() ==> thread_char(#[trigger] id[i])
}

/// Accepts a thread id, or reports it.
pub fn valid_thread(thread_id: &str) -> (valid: Result<(), ActorError>)
    ensures
        valid is Ok <==> is_thread_id(thread_id@),
        valid matches Err(error) ==> error@ == (ErrorModel::BadThreadId { thread_id: thread_id@ }),
{
    let chars = chars_of(thread_id);
    let mut ok = chars.len() > 0 && chars.len() <= 128;
    let mut i: usize = 0;
    while i < chars.len()
        invariant
            i <= chars@.len(),
            chars@ == thread_id@,
            ok <==> 1 <= chars@.len() <= 128 && (forall|k: int|
                0 <= k < i ==> thread_char(#[trigger] chars@[k])),
        decreases chars.len() - i,
    {
        let c = chars[i];
        if !(('0' <= c && c <= '9') || ('A' <= c && c <= 'Z') || ('a' <= c && c <= 'z') || c == '_'
            || c == '.' || c == ':' || c == '-') {
            ok = false;
        }
        i += 1;
    }
    if ok {
        Ok(())
    } else {
        Err(ActorError::BadThreadId { thread_id: thread_id.to_owned() })
    }
}

/// A stored fact and a new one say the same thing.
pub open spec fn same_content(stored: FactModel, incoming: NewFactModel) -> bool {
    stored.kind == incoming.kind && json_same(stored.payload, incoming.payload)
}

/// The log holds the new fact already: the same key with the same content.
pub open spec fn recorded(current: Seq<FactModel>, item: NewFactModel) -> bool {
    exists|i: int|
        0 <= i < current.len() && (#[trigger] current[i]).key == item.key && same_content(
            current[i],
            item,
        )
}

/// The log holds every one of the new facts already.
pub open spec fn all_recorded(current: Seq<FactModel>, incoming: Seq<NewFactModel>) -> bool {
    forall|i: int| 0 <= i < incoming.len() ==> recorded(current, #[trigger] incoming[i])
}

/// The log holds a fact of that key.
pub open spec fn key_taken(current: Seq<FactModel>, key: Seq<char>) -> bool {
    exists|i: int| 0 <= i < current.len() && (#[trigger] current[i]).key == key
}

/// The first of the new facts whose key is taken.
pub open spec fn first_taken(current: Seq<FactModel>, incoming: Seq<NewFactModel>) -> Option<
    Seq<char>,
>
    decreases incoming.len(),
{
    if incoming.len() == 0 {
        None
    } else if key_taken(current, incoming[0].key) {
        Some(incoming[0].key)
    } else {
        first_taken(current, incoming.drop_first())
    }
}

/// The new facts as the log stores them behind a sequence number.
pub open spec fn numbered(
    after: u64,
    incoming: Seq<NewFactModel>,
    cause: Option<Seq<char>>,
) -> Seq<FactModel> {
    Seq::new(
        incoming.len(),
        |i: int|
            FactModel {
                seq: (after + 1 + i) as u64,
                kind: incoming[i].kind,
                key: incoming[i].key,
                cause,
                payload: incoming[i].payload,
            },
    )
}

/// What becomes of a log when facts are appended to it: the log, or the key that
/// was taken.
pub open spec fn committed(
    current: Seq<FactModel>,
    incoming: Seq<NewFactModel>,
    cause: Option<Seq<char>>,
) -> Result<Seq<FactModel>, Seq<char>> {
    if all_recorded(current, incoming) {
        Ok(current)
    } else {
        match first_taken(current, incoming) {
            Some(key) => Err(key),
            None => Ok(current + numbered(last_seq(current), incoming, cause)),
        }
    }
}

fn same_payload(stored: &Fact, incoming: &NewFact) -> (same: bool)
    ensures
        same == same_content(stored@, incoming@),
{
    same_text(stored.kind.as_str(), incoming.kind.as_str()) && same_json(
        &stored.payload,
        &incoming.payload,
    )
}

fn is_recorded(current: &[Fact], item: &NewFact) -> (held: bool)
    ensures
        held == recorded(said(current@), item@),
{
    let ghost log = said(current@);
    let mut i: usize = 0;
    while i < current.len()
        invariant
            i <= current@.len(),
            log == said(current@),
            forall|k: int|
                0 <= k < i ==> !((#[trigger] log[k]).key == item@.key && same_content(
                    log[k],
                    item@,
                )),
        decreases current.len() - i,
    {
        assert(log[i as int] == current@[i as int]@);
        if same_text(current[i].key.as_str(), item.key.as_str()) && same_payload(&current[i], item) {
            return true;
        }
        i += 1;
    }
    false
}

fn is_taken(current: &[Fact], key: &str) -> (taken: bool)
    ensures
        taken == key_taken(said(current@), key@),
{
    let ghost log = said(current@);
    let mut i: usize = 0;
    while i < current.len()
        invariant
            i <= current@.len(),
            log == said(current@),
            forall|k: int| 0 <= k < i ==> (#[trigger] log[k]).key != key@,
        decreases current.len() - i,
    {
        assert(log[i as int] == current@[i as int]@);
        if same_text(current[i].key.as_str(), key) {
            return true;
        }
        i += 1;
    }
    false
}

/// Decides what appending facts to a log comes to: `false` where all of them are
/// there already, `true` where all of them are new to it.
pub fn decide(current: &[Fact], incoming: &[NewFact]) -> (fresh: Result<bool, ActorError>)
    ensures
        fresh matches Ok(false) <==> all_recorded(said(current@), said_new(incoming@)),
        fresh matches Ok(true) <==> !all_recorded(said(current@), said_new(incoming@))
            && first_taken(said(current@), said_new(incoming@)) is None,
        fresh matches Err(error) ==> (first_taken(said(current@), said_new(incoming@)) matches Some(
            taken,
        ) && error@ == (ErrorModel::DuplicateFact { key: taken })),
{
    let ghost log = said(current@);
    let ghost new = said_new(incoming@);
    let mut already = true;
    let mut i: usize = 0;
    while i < incoming.len()
        invariant
            i <= incoming@.len(),
            log == said(current@),
            new == said_new(incoming@),
            already <==> (forall|k: int| 0 <= k < i ==> recorded(log, #[trigger] new[k])),
        decreases incoming.len() - i,
    {
        assert(new[i as int] == incoming@[i as int]@);
        if !is_recorded(current, &incoming[i]) {
            already = false;
        }
        i += 1;
    }
    if already {
        return Ok(false);
    }
    let mut i: usize = 0;
    assert(new.skip(0) =~= new);
    while i < incoming.len()
        invariant
            i <= incoming@.len(),
            log == said(current@),
            new == said_new(incoming@),
            !all_recorded(log, new),
            first_taken(log, new) == first_taken(log, new.skip(i as int)),
        decreases incoming.len() - i,
    {
        assert(new.skip(i as int)[0] == incoming@[i as int]@);
        assert(new.skip(i as int).drop_first() =~= new.skip(i + 1));
        if is_taken(current, incoming[i].key.as_str()) {
            return Err(ActorError::DuplicateFact { key: incoming[i].key.clone() });
        }
        i += 1;
    }
    Ok(true)
}

/// There are sequence numbers left for the facts that would be appended.
pub open spec fn has_room(current: Seq<FactModel>, incoming: Seq<NewFactModel>) -> bool {
    ||| all_recorded(current, incoming)
    ||| first_taken(current, incoming) is Some
    ||| last_seq(current) + incoming.len() <= u64::MAX
}

/// Tests whether the sequence numbers suffice for an append.
pub fn numbers_suffice(current: &[Fact], incoming: &[NewFact]) -> (suffice: bool)
    ensures
        suffice == has_room(said(current@), said_new(incoming@)),
{
    match decide(current, incoming) {
        Ok(true) => {
            let last: u64 = if current.len() == 0 {
                0
            } else {
                current[current.len() - 1].seq
            };
            incoming.len() as u64 <= u64::MAX - last
        },
        _ => true,
    }
}

/// Appends facts to a log by its rules.
pub fn commit(current: &[Fact], incoming: &[NewFact], cause: Option<&str>) -> (next: Result<
    Vec<Fact>,
    ActorError,
>)
    requires
        has_room(said(current@), said_new(incoming@)),
    ensures
        match committed(said(current@), said_new(incoming@), str_opt(cause)) {
            Ok(log) => next matches Ok(facts) && said(facts@) == log,
            Err(taken) => next matches Err(error) && error@ == (ErrorModel::DuplicateFact {
                key: taken,
            }),
        },
{
    let ghost log = said(current@);
    let ghost new = said_new(incoming@);
    match decide(current, incoming) {
        Err(error) => return Err(error),
        Ok(fresh) => {
            if !fresh {
                return Ok(copy_facts(current));
            }
        },
    }
    let after: u64 = if current.len() == 0 {
        0
    } else {
        current[current.len() - 1].seq
    };
    let mut next = copy_facts(current);
    let mut i: usize = 0;
    let ghost stored = numbered(after, new, str_opt(cause));
    assert(log + stored.take(0) =~= log);
    while i < incoming.len()
        invariant
            i <= incoming@.len(),
            log == said(current@),
            new == said_new(incoming@),
            after == last_seq(log),
            after + incoming@.len() <= u64::MAX,
            stored == numbered(after, new, str_opt(cause)),
            said(next@) == log + stored.take(i as int),
        decreases incoming.len() - i,
    {
        let ghost before = next@;
        let cause = match cause {
            Some(text) => Some(text.to_owned()),
            None => None,
        };
        next.push(
            Fact {
                seq: after + 1 + i as u64,
                kind: incoming[i].kind.clone(),
                key: incoming[i].key.clone(),
                cause,
                payload: incoming[i].payload.clone(),
            },
        );
        proof {
            assert(new[i as int] == incoming@[i as int]@);
            assert(next@.last()@ == stored[i as int]);
            assert(said(next@) =~= said(before).push(stored[i as int]));
            assert(log + stored.take(i + 1) =~= (log + stored.take(i as int)).push(
                stored[i as int],
            ));
        }
        i += 1;
    }
    assert(stored.take(stored.len() as int) =~= stored);
    Ok(next)
}

/// A log only grows: what was in it stays, in its place.
pub proof fn law_log_grows(
    current: Seq<FactModel>,
    incoming: Seq<NewFactModel>,
    cause: Option<Seq<char>>,
)
    ensures
        committed(current, incoming, cause) matches Ok(next) ==> current.is_prefix_of(next),
{
    assert(current.is_prefix_of(current)) by {
        assert(current =~= current.subrange(0, current.len() as int));
    }
    let next = current + numbered(last_seq(current), incoming, cause);
    assert(current =~= next.subrange(0, current.len() as int));
}

/// What was appended is recorded.
pub proof fn law_appended_is_recorded(
    current: Seq<FactModel>,
    incoming: Seq<NewFactModel>,
    cause: Option<Seq<char>>,
)
    ensures
        committed(current, incoming, cause) matches Ok(next) ==> all_recorded(next, incoming),
{
    if committed(current, incoming, cause) is Ok && !all_recorded(current, incoming) {
        let stored = numbered(last_seq(current), incoming, cause);
        let next = current + stored;
        assert forall|i: int| 0 <= i < incoming.len() implies recorded(
            next,
            #[trigger] incoming[i],
        ) by {
            lemma_json_same_reflexive(incoming[i].payload);
            assert(next[current.len() + i] == stored[i]);
        }
    }
}

/// Appending the same facts again changes nothing, whatever the cause.
pub proof fn law_append_is_idempotent(
    current: Seq<FactModel>,
    incoming: Seq<NewFactModel>,
    cause: Option<Seq<char>>,
    again: Option<Seq<char>>,
)
    ensures
        committed(current, incoming, cause) matches Ok(next) ==> committed(next, incoming, again)
            == Ok::<Seq<FactModel>, Seq<char>>(next),
{
    law_appended_is_recorded(current, incoming, cause);
}

/// A key that is taken cannot be used for anything else: the first new fact whose
/// key is taken is reported, unless every new fact is recorded as it stands.
pub proof fn law_taken_key_is_refused(
    current: Seq<FactModel>,
    item: NewFactModel,
    cause: Option<Seq<char>>,
)
    requires
        key_taken(current, item.key),
        !recorded(current, item),
    ensures
        committed(current, seq![item], cause) == Err::<Seq<FactModel>, Seq<char>>(item.key),
{
    assert(seq![item][0] == item);
}

/// No key stands twice in the log.
pub open spec fn unique_keys(log: Seq<FactModel>) -> bool {
    forall|i: int, j: int|
        0 <= i < j < log.len() ==> (#[trigger] log[i]).key != (#[trigger] log[j]).key
}

/// No key stands twice among the new facts.
pub open spec fn distinct_keys(incoming: Seq<NewFactModel>) -> bool {
    forall|i: int, j: int|
        0 <= i < j < incoming.len() ==> (#[trigger] incoming[i]).key != (
        #[trigger] incoming[j]).key
}

/// Where no key is reported, none of the new keys is taken.
proof fn lemma_none_taken(current: Seq<FactModel>, incoming: Seq<NewFactModel>)
    requires
        first_taken(current, incoming) is None,
    ensures
        forall|i: int| 0 <= i < incoming.len() ==> !key_taken(current, (#[trigger] incoming[i]).key),
    decreases incoming.len(),
{
    if incoming.len() > 0 {
        let rest = incoming.drop_first();
        lemma_none_taken(current, rest);
        assert forall|i: int| 0 <= i < incoming.len() implies !key_taken(
            current,
            (#[trigger] incoming[i]).key,
        ) by {
            if i > 0 {
                assert(incoming[i] == rest[i - 1]);
            }
        }
    }
}

/// Keys stay unique as long as no batch holds one key twice.
pub proof fn law_keys_stay_unique(
    current: Seq<FactModel>,
    incoming: Seq<NewFactModel>,
    cause: Option<Seq<char>>,
)
    requires
        unique_keys(current),
        distinct_keys(incoming),
    ensures
        committed(current, incoming, cause) matches Ok(next) ==> unique_keys(next),
{
    if committed(current, incoming, cause) is Ok && !all_recorded(current, incoming) {
        let stored = numbered(last_seq(current), incoming, cause);
        let next = current + stored;
        lemma_none_taken(current, incoming);
        assert forall|i: int, j: int| 0 <= i < j < next.len() implies (#[trigger] next[i]).key != (
        #[trigger] next[j]).key by {
            let n = current.len() as int;
            if j >= n {
                assert(next[j].key == incoming[j - n].key);
                if i < n {
                    assert(next[i] == current[i]);
                    assert(!key_taken(current, incoming[j - n].key));
                } else {
                    assert(next[i].key == incoming[i - n].key);
                }
            }
        }
    }
}

/// The facts of the log are numbered from one.
pub open spec fn counted(log: Seq<FactModel>) -> bool {
    forall|i: int| 0 <= i < log.len() ==> (#[trigger] log[i]).seq == i + 1
}

/// A log that is numbered from one stays so.
pub proof fn law_numbering_stays(
    current: Seq<FactModel>,
    incoming: Seq<NewFactModel>,
    cause: Option<Seq<char>>,
)
    requires
        counted(current),
        has_room(current, incoming),
    ensures
        committed(current, incoming, cause) matches Ok(next) ==> counted(next),
{
    if committed(current, incoming, cause) is Ok && !all_recorded(current, incoming) {
        let stored = numbered(last_seq(current), incoming, cause);
        let next = current + stored;
        assert forall|i: int| 0 <= i < next.len() implies (#[trigger] next[i]).seq == i + 1 by {
            let n = current.len() as int;
            if i >= n {
                assert(next[i] == stored[i - n]);
            } else {
                assert(next[i] == current[i]);
            }
        }
    }
}

/// A fact store keyed by thread. A store may fail to answer; what it does answer
/// follows the rules of the log.
pub trait LogStore: Send + Sync {
    /// The store may hold these facts for a thread. A store whose facts stand
    /// outside its value, such as in files, leaves this open: any facts may be there.
    open spec fn may_hold(&self, thread: Seq<char>, facts: Seq<FactModel>) -> bool {
        true
    }

    /// Reads the facts of a thread.
    fn read(&self, thread_id: &str) -> (read: Result<Vec<Fact>, ActorError>)
        ensures
            read matches Ok(facts) ==> is_thread_id(thread_id@) && self.may_hold(
                thread_id@,
                said(facts@),
            ),
            !is_thread_id(thread_id@) ==> (read matches Err(error) && error@ == (
            ErrorModel::BadThreadId { thread_id: thread_id@ })),
    ;

    /// Appends facts to a thread and gives its facts.
    fn append(&mut self, thread_id: &str, facts: &[NewFact], cause: Option<&str>) -> (next: Result<
        Vec<Fact>,
        ActorError,
    >)
        requires
            exists|current: Seq<FactModel>| #[trigger]
                old(self).may_hold(thread_id@, current) && has_room(current, said_new(facts@)),
        ensures
            next matches Ok(log) ==> {
                &&& is_thread_id(thread_id@)
                &&& final(self).may_hold(thread_id@, said(log@))
                &&& exists|current: Seq<FactModel>| #[trigger]
                    old(self).may_hold(thread_id@, current) && committed(
                        current,
                        said_new(facts@),
                        str_opt(cause),
                    ) == Ok::<Seq<FactModel>, Seq<char>>(said(log@))
            },
            !is_thread_id(thread_id@) ==> (next matches Err(error) && error@ == (
            ErrorModel::BadThreadId { thread_id: thread_id@ })),
            forall|other: Seq<char>, held: Seq<FactModel>|
                other != thread_id@ ==> #[trigger] final(self).may_hold(other, held) == old(
                    self,
                ).may_hold(other, held),
    ;
}

/// The facts of one thread.
struct Thread {
    id: String,
    facts: Vec<Fact>,
}

/// The place of a thread among the threads.
spec fn holds_thread(threads: Seq<Thread>, id: Seq<char>, at: int) -> bool {
    0 <= at < threads.len() && threads[at].id@ == id
}

/// The facts of a thread among the threads: none where it is not there.
spec fn facts_of(threads: Seq<Thread>, id: Seq<char>) -> Seq<FactModel> {
    if exists|at: int| holds_thread(threads, id, at) {
        said(threads[choose|at: int| holds_thread(threads, id, at)].facts@)
    } else {
        Seq::empty()
    }
}

/// No thread stands twice.
spec fn one_each(threads: Seq<Thread>) -> bool {
    forall|i: int, j: int|
        0 <= i < j < threads.len() ==> (#[trigger] threads[i]).id@ != (#[trigger] threads[j]).id@
}

/// A log that keeps its threads in memory.
pub struct MemoryLog {
    threads: Vec<Thread>,
}

impl MemoryLog {
    #[verifier::type_invariant]
    spec fn well_kept(self) -> bool {
        one_each(self.threads@)
    }

    /// The facts of a thread.
    pub closed spec fn stored(&self, thread: Seq<char>) -> Seq<FactModel> {
        facts_of(self.threads@, thread)
    }

    /// A log without threads.
    pub fn new() -> (log: MemoryLog)
        ensures
            forall|thread: Seq<char>| #[trigger] log.stored(thread) == Seq::<FactModel>::empty(),
    {
        let log = MemoryLog { threads: Vec::new() };
        assert forall|thread: Seq<char>| #[trigger] log.stored(thread) == Seq::<FactModel>::empty() by {
            assert(!(exists|at: int| holds_thread(log.threads@, thread, at)));
        }
        log
    }

    fn find(threads: &Vec<Thread>, id: &str) -> (at: Option<usize>)
        ensures
            at matches Some(i) ==> holds_thread(threads@, id@, i as int),
            at is None ==> forall|i: int| !holds_thread(threads@, id@, i),
    {
        let mut i: usize = 0;
        while i < threads.len()
            invariant
                i <= threads@.len(),
                forall|k: int| 0 <= k < i ==> !holds_thread(threads@, id@, k),
            decreases threads.len() - i,
        {
            if same_text(threads[i].id.as_str(), id) {
                return Some(i);
            }
            i += 1;
        }
        None
    }
}

/// Where no thread stands twice, the facts of a thread are those at its place.
proof fn lemma_facts_at(threads: Seq<Thread>, id: Seq<char>, at: int)
    requires
        one_each(threads),
        holds_thread(threads, id, at),
    ensures
        facts_of(threads, id) == said(threads[at].facts@),
{
    let found = choose|k: int| holds_thread(threads, id, k);
    assert(holds_thread(threads, id, found));
    assert(found == at);
}

/// Giving one thread its facts leaves the others as they were.
proof fn lemma_others_kept(before: Seq<Thread>, after: Seq<Thread>, id: Seq<char>, at: int)
    requires
        one_each(before),
        one_each(after),
        holds_thread(after, id, at),
        at == before.len() && after.len() == before.len() + 1 || after.len() == before.len()
            && holds_thread(before, id, at),
        forall|i: int| 0 <= i < before.len() && i != at ==> #[trigger] after[i] == before[i],
    ensures
        forall|other: Seq<char>| other != id ==> #[trigger] facts_of(after, other) == facts_of(
            before,
            other,
        ),
{
    assert forall|other: Seq<char>| other != id implies #[trigger] facts_of(after, other)
        == facts_of(before, other) by {
        if exists|k: int| holds_thread(before, other, k) {
            let k = choose|k: int| holds_thread(before, other, k);
            assert(after[k] == before[k]);
            assert(holds_thread(after, other, k));
            lemma_facts_at(before, other, k);
            lemma_facts_at(after, other, k);
        } else if exists|k: int| holds_thread(after, other, k) {
            let k = choose|k: int| holds_thread(after, other, k);
            assert(k != at);
            assert(after[k] == before[k]);
            assert(holds_thread(before, other, k));
        }
    }
}

impl Default for MemoryLog {
    fn default() -> (log: MemoryLog)
        ensures
            forall|thread: Seq<char>| #[trigger] log.stored(thread) == Seq::<FactModel>::empty(),
    {
        MemoryLog::new()
    }
}

impl LogStore for MemoryLog {
    open spec fn may_hold(&self, thread: Seq<char>, facts: Seq<FactModel>) -> bool {
        facts == self.stored(thread)
    }

    fn read(&self, thread_id: &str) -> (read: Result<Vec<Fact>, ActorError>)
        ensures
            read is Ok <==> is_thread_id(thread_id@),
            read matches Ok(facts) ==> said(facts@) == self.stored(thread_id@),
    {
        match valid_thread(thread_id) {
            Ok(()) => {},
            Err(error) => return Err(error),
        }
        proof {
            use_type_invariant(self);
        }
        match MemoryLog::find(&self.threads, thread_id) {
            Some(at) => {
                proof {
                    lemma_facts_at(self.threads@, thread_id@, at as int);
                }
                Ok(copy_facts(self.threads[at].facts.as_slice()))
            },
            None => {
                let none: Vec<Fact> = Vec::new();
                assert(said(none@) =~= Seq::empty());
                Ok(none)
            },
        }
    }

    fn append(&mut self, thread_id: &str, facts: &[NewFact], cause: Option<&str>) -> (next: Result<
        Vec<Fact>,
        ActorError,
    >)
        ensures
            is_thread_id(thread_id@) ==> match committed(
                old(self).stored(thread_id@),
                said_new(facts@),
                str_opt(cause),
            ) {
                Ok(grown) => next matches Ok(log) && said(log@) == grown && final(self).stored(
                    thread_id@,
                ) == grown,
                Err(taken) => next matches Err(error) && error@ == (ErrorModel::DuplicateFact {
                    key: taken,
                }),
            },
            next is Err ==> final(self).stored(thread_id@) == old(self).stored(thread_id@),
            forall|other: Seq<char>|
                other != thread_id@ ==> #[trigger] final(self).stored(other) == old(self).stored(
                    other,
                ),
    {
        match valid_thread(thread_id) {
            Ok(()) => {},
            Err(error) => return Err(error),
        }
        proof {
            use_type_invariant(&*self);
        }
        let ghost before = self.threads@;
        let place = MemoryLog::find(&self.threads, thread_id);
        let current = match place {
            Some(at) => {
                proof {
                    lemma_facts_at(before, thread_id@, at as int);
                }
                copy_facts(self.threads[at].facts.as_slice())
            },
            None => {
                let none: Vec<Fact> = Vec::new();
                assert(said(none@) =~= Seq::empty());
                none
            },
        };
        let next = match commit(current.as_slice(), facts, cause) {
            Ok(next) => next,
            Err(error) => return Err(error),
        };
        let kept = Thread { id: thread_id.to_owned(), facts: copy_facts(next.as_slice()) };
        let mut threads: Vec<Thread> = Vec::new();
        std::mem::swap(&mut threads, &mut self.threads);
        let at = match place {
            Some(at) => {
                threads.set(at, kept);
                at
            },
            None => {
                threads.push(kept);
                threads.len() - 1
            },
        };
        proof {
            let after = threads@;
            assert(holds_thread(after, thread_id@, at as int));
            assert forall|i: int, j: int| 0 <= i < j < after.len() implies (
            #[trigger] after[i]).id@ != (#[trigger] after[j]).id@ by {
                if place is None {
                    assert(i < before.len() ==> !holds_thread(before, thread_id@, i));
                }
                assert(i < before.len() ==> after[i].id@ == before[i].id@);
                assert(j < before.len() ==> after[j].id@ == before[j].id@);
            }
            lemma_facts_at(after, thread_id@, at as int);
            lemma_others_kept(before, after, thread_id@, at as int);
        }
        self.threads = threads;
        Ok(next)
    }
}

} // verus!
