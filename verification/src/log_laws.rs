//! What appending to a log and reading its file are for, told over facts and lines.

use vstd::prelude::*;

use crate::fact::{fact_parsed, last_seq, line_text, FactModel, NewFactModel};
use crate::json::json_same;
use crate::log::{all_recorded, committed, first_taken, has_room, is_thread_id, key_taken, recorded,
    thread_char, unique_keys};
use crate::log_file::{ended, extends, lines_of, lines_parsed, log_parsed, log_text, split, without_return};

verus! {

/// None of the new facts has a key that the log holds.
pub open spec fn all_keys_free(current: Seq<FactModel>, incoming: Seq<NewFactModel>) -> bool {
    forall|i: int, j: int|
        0 <= i < current.len() && 0 <= j < incoming.len() ==> (#[trigger] current[i]).key != (
        #[trigger] incoming[j]).key
}

/// Where no new key is in use, no key is reported.
proof fn lemma_free(current: Seq<FactModel>, incoming: Seq<NewFactModel>)
    requires
        all_keys_free(current, incoming),
    ensures
        first_taken(current, incoming) is None,
        incoming.len() > 0 ==> !all_recorded(current, incoming),
    decreases incoming.len(),
{
    if incoming.len() > 0 {
        let rest = incoming.drop_first();
        assert forall|i: int, j: int| 0 <= i < current.len() && 0 <= j < rest.len() implies (
        #[trigger] current[i]).key != (#[trigger] rest[j]).key by {
            assert(rest[j] == incoming[j + 1]);
        }
        lemma_free(current, rest);
        assert(!recorded(current, incoming[0]));
        assert(!key_taken(current, incoming[0].key));
    }
}

/// New facts whose keys are free are appended: each stands behind the log as it came,
/// in order, with the cause, and with the numbers that follow the last one.
pub proof fn law_new_facts_are_appended(
    current: Seq<FactModel>,
    incoming: Seq<NewFactModel>,
    cause: Option<Seq<char>>,
)
    requires
        all_keys_free(current, incoming),
        (if current.len() == 0 {
            0
        } else {
            current.last().seq as int
        }) + incoming.len() <= u64::MAX,
    ensures
        has_room(current, incoming),
        committed(current, incoming, cause) matches Ok(next) && {
            &&& next.len() == current.len() + incoming.len()
            &&& forall|i: int| 0 <= i < current.len() ==> #[trigger] next[i] == current[i]
            &&& forall|i: int|
                0 <= i < incoming.len() ==> {
                    let stored = next[current.len() + i];
                    &&& stored.kind == (#[trigger] incoming[i]).kind
                    &&& stored.key == incoming[i].key
                    &&& stored.payload == incoming[i].payload
                    &&& stored.cause == cause
                    &&& stored.seq == (if current.len() == 0 {
                        0
                    } else {
                        current.last().seq as int
                    }) + 1 + i
                }
        },
{
    lemma_free(current, incoming);
}

/// A fact that the log holds already, with the same kind and payload, is not stored
/// again, whatever the cause: the log stays as it is.
pub proof fn law_a_repeated_fact_changes_nothing(
    current: Seq<FactModel>,
    item: NewFactModel,
    cause: Option<Seq<char>>,
    at: int,
)
    requires
        0 <= at < current.len(),
        current[at].key == item.key,
        current[at].kind == item.kind,
        json_same(current[at].payload, item.payload),
    ensures
        committed(current, seq![item], cause) == Ok::<Seq<FactModel>, Seq<char>>(current),
{
    assert(recorded(current, item));
    assert(seq![item][0] == item);
}

/// A key that the log holds with another kind or another payload is refused by its
/// name, whatever the cause.
pub proof fn law_a_changed_fact_is_refused(
    current: Seq<FactModel>,
    item: NewFactModel,
    cause: Option<Seq<char>>,
    at: int,
)
    requires
        unique_keys(current),
        0 <= at < current.len(),
        current[at].key == item.key,
        current[at].kind != item.kind || !json_same(current[at].payload, item.payload),
    ensures
        committed(current, seq![item], cause) == Err::<Seq<FactModel>, Seq<char>>(item.key),
{
    if recorded(current, item) {
        let i = choose|i: int|
            0 <= i < current.len() && (#[trigger] current[i]).key == item.key && current[i].kind
                == item.kind && json_same(current[i].payload, item.payload);
        assert(current[i].key == current[at].key);
        assert(i == at);
    }
    assert(key_taken(current, item.key));
    crate::log::law_taken_key_is_refused(current, item, cause);
}

/// A batch is stored whole or not at all: where some key is in use and not the whole
/// batch is there already, the first such key is reported.
pub proof fn law_a_batch_is_refused_by_its_first_taken_key(
    current: Seq<FactModel>,
    incoming: Seq<NewFactModel>,
    cause: Option<Seq<char>>,
    at: int,
)
    requires
        0 <= at < incoming.len(),
        key_taken(current, incoming[at].key),
        forall|i: int| 0 <= i < at ==> !key_taken(current, (#[trigger] incoming[i]).key),
        !all_recorded(current, incoming),
    ensures
        committed(current, incoming, cause) == Err::<Seq<FactModel>, Seq<char>>(incoming[at].key),
{
    lemma_first_taken(current, incoming, at);
}

proof fn lemma_first_taken(current: Seq<FactModel>, incoming: Seq<NewFactModel>, at: int)
    requires
        0 <= at < incoming.len(),
        key_taken(current, incoming[at].key),
        forall|i: int| 0 <= i < at ==> !key_taken(current, (#[trigger] incoming[i]).key),
    ensures
        first_taken(current, incoming) == Some(incoming[at].key),
    decreases at,
{
    if at > 0 {
        let rest = incoming.drop_first();
        assert forall|i: int| 0 <= i < at - 1 implies !key_taken(
            current,
            (#[trigger] rest[i]).key,
        ) by {
            assert(rest[i] == incoming[i + 1]);
        }
        assert(rest[at - 1] == incoming[at]);
        lemma_first_taken(current, rest, at - 1);
    }
}

/// What is in use and what is recorded, by the facts of the log: a key is in use
/// where a fact has it, and a fact is recorded where one has its key, its kind and
/// its payload.
pub proof fn law_records_are_facts(current: Seq<FactModel>, item: NewFactModel, at: int)
    ensures
        0 <= at < current.len() && current[at].key == item.key ==> key_taken(current, item.key),
        key_taken(current, item.key) ==> exists|i: int|
            0 <= i < current.len() && (#[trigger] current[i]).key == item.key,
        recorded(current, item) ==> exists|i: int|
            0 <= i < current.len() && (#[trigger] current[i]).key == item.key && current[i].kind
                == item.kind && json_same(current[i].payload, item.payload),
{
}

/// Appending nothing changes nothing.
pub proof fn law_an_empty_batch_changes_nothing(
    current: Seq<FactModel>,
    cause: Option<Seq<char>>,
)
    ensures
        committed(current, Seq::empty(), cause) == Ok::<Seq<FactModel>, Seq<char>>(current),
{
}

/// The last number of a log is that of its last fact, and zero before any.
pub proof fn law_the_last_number_is_the_last_facts(log: Seq<FactModel>, fact: FactModel)
    ensures
        last_seq(Seq::empty()) == 0,
        last_seq(log.push(fact)) == fact.seq,
{
}

/// A thread id is one segment of a path: not empty, at most 128 characters long, of
/// letters, digits and `_`, `.`, `:` and `-` only. Every such text is one.
pub proof fn law_thread_ids_are_segments(id: Seq<char>)
    ensures
        is_thread_id(id) ==> 1 <= id.len() <= 128 && !id.contains('/') && !id.contains('\\')
            && !id.contains(' ') && !id.contains('\n') && !id.contains('\0'),
        is_thread_id(id) <==> 1 <= id.len() <= 128 && (forall|i: int|
            0 <= i < id.len() ==> {
                let c = (#[trigger] id[i]) as int;
                ||| 48 <= c <= 57
                ||| 65 <= c <= 90
                ||| 97 <= c <= 122
                ||| c == 95 || c == 46 || c == 58 || c == 45
            }),
{
    if is_thread_id(id) {
        assert(forall|i: int| 0 <= i < id.len() ==> thread_char(#[trigger] id[i]));
    }
}

/// The first line of a text ends at its first break, without the carriage return
/// before it, and what stands behind the break has the lines that follow.
pub proof fn law_lines_end_at_breaks(line: Seq<char>, rest: Seq<char>)
    requires
        !line.contains('\n'),
    ensures
        lines_of(line.push('\n') + rest) == seq![
            if line.len() > 0 && line.last() == '\r' {
                line.drop_last()
            } else {
                line
            },
        ] + lines_of(rest),
        lines_of(line) == if line.len() == 0 {
            Seq::<Seq<char>>::empty()
        } else {
            seq![line]
        },
{
    lemma_open_line(line);
    lemma_first_line(line, rest);
    assert(lines_of(line) =~= if line.len() == 0 {
        Seq::<Seq<char>>::empty()
    } else {
        seq![line]
    });
    assert(lines_of(line.push('\n') + rest) =~= seq![without_return(line)] + lines_of(rest));
}

proof fn lemma_open_line(line: Seq<char>)
    requires
        !line.contains('\n'),
    ensures
        split(line).done.len() == 0,
        split(line).open == line,
    decreases line.len(),
{
    if line.len() > 0 {
        let rest = line.drop_last();
        if rest.contains('\n') {
            let i = choose|i: int| 0 <= i < rest.len() && rest[i] == '\n';
            assert(line[i] == '\n');
        }
        lemma_open_line(rest);
        assert(line.contains(line.last()));
        assert(rest.push(line.last()) =~= line);
    } else {
        assert(split(line).open =~= line);
    }
}

proof fn lemma_first_line(line: Seq<char>, rest: Seq<char>)
    requires
        !line.contains('\n'),
    ensures
        split(line.push('\n') + rest).done == seq![without_return(line)] + split(rest).done,
        split(line.push('\n') + rest).open == split(rest).open,
    decreases rest.len(),
{
    let head = line.push('\n');
    if rest.len() == 0 {
        assert(head + rest =~= head);
        assert(head.drop_last() =~= line);
        lemma_open_line(line);
        assert(split(head).done =~= seq![without_return(line)] + split(rest).done);
    } else {
        lemma_first_line(line, rest.drop_last());
        assert((head + rest).drop_last() =~= head + rest.drop_last());
        assert((head + rest).last() == rest.last());
        assert(split(head + rest).done =~= seq![without_return(line)] + split(rest).done);
    }
}

/// Lines are read one after the other: an empty line adds nothing, a line of a fact
/// adds that fact, and the first line that is none is the one reported.
pub proof fn law_lines_are_read_in_order(lines: Seq<Seq<char>>, line: Seq<char>)
    ensures
        lines_parsed(Seq::empty()) == Ok::<Seq<FactModel>, Seq<char>>(Seq::empty()),
        lines_parsed(lines) matches Err(report) ==> lines_parsed(lines.push(line)) == Err::<
            Seq<FactModel>,
            Seq<char>,
        >(report),
        lines_parsed(lines) matches Ok(facts) ==> {
            &&& line.len() == 0 ==> lines_parsed(lines.push(line)) == Ok::<
                Seq<FactModel>,
                Seq<char>,
            >(facts)
            &&& line.len() > 0 ==> (fact_parsed(line) matches Ok(fact) ==> lines_parsed(
                lines.push(line),
            ) == Ok::<Seq<FactModel>, Seq<char>>(facts.push(fact)))
            &&& line.len() > 0 ==> (fact_parsed(line) matches Err(report) ==> lines_parsed(
                lines.push(line),
            ) == Err::<Seq<FactModel>, Seq<char>>(report))
        },
{
    assert(lines.push(line).drop_last() =~= lines);
}

/// A file is read line by line.
pub proof fn law_a_file_is_its_lines(text: Seq<char>)
    ensures
        log_parsed(text) == lines_parsed(lines_of(text)),
        log_parsed(Seq::empty()) == Ok::<Seq<FactModel>, Seq<char>>(Seq::empty()),
{
}

/// A log is written line by line, each with a break behind it.
pub proof fn law_a_log_is_written_line_by_line(facts: Seq<FactModel>, fact: FactModel)
    ensures
        log_text(Seq::empty()).len() == 0,
        log_text(facts.push(fact)) == log_text(facts) + line_text(fact) + seq!['\n'],
{
    assert(facts.push(fact).drop_last() =~= facts);
    assert(log_text(facts.push(fact)) =~= log_text(facts) + line_text(fact) + seq!['\n']);
}

/// The last line of a text has ended where the text is empty or ends in a break.
pub proof fn law_lines_end_in_breaks(text: Seq<char>, before: Seq<char>, written: Seq<FactModel>)
    ensures
        ended(text) <==> text.len() == 0 || text.last() == '\n',
        extends(text, before, written) ==> text == before + log_text(written) && ended(before),
{
}

} // verus!
