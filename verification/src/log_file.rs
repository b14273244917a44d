//! A log as the text of a file: one line a fact, so that appending to a log is
//! appending to its file.

use vstd::prelude::*;

use crate::error::{ActorError, ErrorModel};
use crate::fact::{fact_line, fact_parsed, is_line_of, line_text, parse_fact_json, recoverable,
    said, said_new, Fact, FactModel, NewFact};
use crate::json_text::unbroken;
use crate::log::{commit, committed, has_room, is_thread_id, law_log_grows};
use crate::text::{chars_of, concat2, str_opt, texts};

verus! {

/// The name of the file that holds a thread.
pub fn log_file_name(thread_id: &str) -> (name: String)
    ensures
        name@ == thread_id@ + ".jsonl"@,
{
    concat2(thread_id, ".jsonl")
}

/// Different threads have different files.
pub proof fn law_files_differ(a: Seq<char>, b: Seq<char>)
    requires
        is_thread_id(a),
        is_thread_id(b),
        a != b,
    ensures
        a + ".jsonl"@ != b + ".jsonl"@,
{
    let end = ".jsonl"@;
    if a + end == b + end {
        assert((a + end).take(a.len() as int) =~= a);
        assert((b + end).take(b.len() as int) =~= b);
    }
}

/// A text cut into lines: those that have ended, and what stands behind the last
/// line break.
pub struct Split {
    pub done: Seq<Seq<char>>,
    pub open: Seq<char>,
}

/// A line without the carriage return before its break.
pub open spec fn without_return(line: Seq<char>) -> Seq<char> {
    if line.len() > 0 && line.last() == '\r' {
        line.drop_last()
    } else {
        line
    }
}

/// Cuts a text into lines.
pub open spec fn split(text: Seq<char>) -> Split
    decreases text.len(),
{
    if text.len() == 0 {
        Split { done: Seq::empty(), open: Seq::empty() }
    } else {
        let before = split(text.drop_last());
        if text.last() == '\n' {
            Split { done: before.done.push(without_return(before.open)), open: Seq::empty() }
        } else {
            Split { done: before.done, open: before.open.push(text.last()) }
        }
    }
}

/// The lines of a text. A break at its end starts no further line.
pub open spec fn lines_of(text: Seq<char>) -> Seq<Seq<char>> {
    let cut = split(text);
    if cut.open.len() == 0 {
        cut.done
    } else {
        cut.done.push(cut.open)
    }
}

/// The facts of lines, empty lines left out, or the report on the first line that
/// is none.
pub open spec fn lines_parsed(lines: Seq<Seq<char>>) -> Result<Seq<FactModel>, Seq<char>>
    decreases lines.len(),
{
    if lines.len() == 0 {
        Ok(Seq::empty())
    } else {
        match lines_parsed(lines.drop_last()) {
            Err(report) => Err(report),
            Ok(facts) => if lines.last().len() == 0 {
                Ok(facts)
            } else {
                match fact_parsed(lines.last()) {
                    Err(report) => Err(report),
                    Ok(fact) => Ok(facts.push(fact)),
                }
            },
        }
    }
}

/// The facts that the text of a log spells.
pub open spec fn log_parsed(text: Seq<char>) -> Result<Seq<FactModel>, Seq<char>> {
    lines_parsed(lines_of(text))
}

/// The text of a log: the line of each fact and a break behind it.
pub open spec fn log_text(facts: Seq<FactModel>) -> Seq<char>
    decreases facts.len(),
{
    if facts.len() == 0 {
        Seq::empty()
    } else {
        (log_text(facts.drop_last()) + line_text(facts.last())).push('\n')
    }
}

/// A text that was written as the text of a log.
pub open spec fn is_log_of(text: Seq<char>, facts: Seq<FactModel>) -> bool {
    &&& text == log_text(facts)
    &&& forall|i: int|
        0 <= i < facts.len() ==> is_line_of(line_text(#[trigger] facts[i]), facts[i])
}

/// Facts that their lines give back.
pub open spec fn all_recoverable(facts: Seq<FactModel>) -> bool {
    forall|i: int| 0 <= i < facts.len() ==> recoverable(#[trigger] facts[i])
}

/// The lines of facts.
pub open spec fn fact_lines(facts: Seq<FactModel>) -> Seq<Seq<char>> {
    facts.map_values(|fact: FactModel| line_text(fact))
}

/// A line without breaks behind ended lines stands open.
proof fn lemma_split_line(before: Seq<char>, line: Seq<char>)
    requires
        split(before).open.len() == 0,
        unbroken(line),
    ensures
        split(before + line).done == split(before).done,
        split(before + line).open == line,
    decreases line.len(),
{
    if line.len() == 0 {
        assert(before + line =~= before);
        assert(split(before).open =~= line);
    } else {
        let rest = line.drop_last();
        lemma_split_line(before, rest);
        assert((before + line).drop_last() =~= before + rest);
        assert((before + line).last() == line.last());
        assert(line.last() == line[line.len() - 1]);
        assert(rest.push(line.last()) =~= line);
    }
}

/// A text whose last line has ended.
pub open spec fn ended(text: Seq<char>) -> bool {
    text.len() == 0 || text.last() == '\n'
}

/// A text that is another one whose last line has ended, with the lines of facts
/// written behind it.
pub open spec fn extends(text: Seq<char>, before: Seq<char>, written: Seq<FactModel>) -> bool {
    &&& ended(before)
    &&& text == before + log_text(written)
    &&& forall|i: int|
        0 <= i < written.len() ==> is_line_of(line_text(#[trigger] written[i]), written[i])
}

/// A text has the lines of the one that it extends and those of the facts behind.
proof fn lemma_split_extended(before: Seq<char>, written: Seq<FactModel>)
    requires
        extends(before + log_text(written), before, written),
    ensures
        split(before + log_text(written)).done == split(before).done + fact_lines(written),
        split(before + log_text(written)).open.len() == 0,
    decreases written.len(),
{
    if written.len() == 0 {
        assert(before + log_text(written) =~= before);
        assert(split(before).done + fact_lines(written) =~= split(before).done);
    } else {
        let rest = written.drop_last();
        assert forall|i: int| 0 <= i < rest.len() implies is_line_of(
            line_text(#[trigger] rest[i]),
            rest[i],
        ) by {
            assert(rest[i] == written[i]);
        }
        lemma_split_extended(before, rest);
        let line = line_text(written.last());
        assert(is_line_of(line_text(written[written.len() - 1]), written[written.len() - 1]));
        lemma_split_line(before + log_text(rest), line);
        let upto = before + log_text(rest) + line;
        assert(before + log_text(written) =~= upto.push('\n'));
        assert(upto.push('\n').drop_last() =~= upto);
        assert(without_return(line) == line) by {
            assert(line.len() > 0 ==> line.last() == line[line.len() - 1]);
        }
        assert(split(before).done + fact_lines(written) =~= (split(before).done + fact_lines(
            rest,
        )).push(line));
    }
}

/// A line that gives back every recoverable fact that it was written for.
spec fn gives_back(line: Seq<char>) -> bool {
    forall|fact: FactModel| #[trigger]
        is_line_of(line, fact) && recoverable(fact) ==> fact_parsed(line) == Ok::<
            FactModel,
            Seq<char>,
        >(fact)
}

/// The lines of recoverable facts, behind lines that are read, read as those facts
/// behind the ones that were read.
proof fn lemma_lines_added(
    lines: Seq<Seq<char>>,
    current: Seq<FactModel>,
    written: Seq<FactModel>,
)
    requires
        lines_parsed(lines) == Ok::<Seq<FactModel>, Seq<char>>(current),
        all_recoverable(written),
        forall|i: int|
            0 <= i < written.len() ==> is_line_of(line_text(#[trigger] written[i]), written[i]),
        forall|i: int|
            0 <= i < written.len() ==> gives_back(line_text(#[trigger] written[i])),
    ensures
        lines_parsed(lines + fact_lines(written)) == Ok::<Seq<FactModel>, Seq<char>>(
            current + written,
        ),
    decreases written.len(),
{
    if written.len() == 0 {
        assert(lines + fact_lines(written) =~= lines);
        assert(current + written =~= current);
    } else {
        let rest = written.drop_last();
        let last = written.len() - 1;
        assert forall|i: int| 0 <= i < rest.len() implies recoverable(#[trigger] rest[i])
            && is_line_of(line_text(rest[i]), rest[i]) && gives_back(line_text(rest[i])) by {
            assert(rest[i] == written[i]);
        }
        lemma_lines_added(lines, current, rest);
        let line = line_text(written[last]);
        let all = lines + fact_lines(written);
        assert(all.drop_last() =~= lines + fact_lines(rest));
        assert(all.last() == line);
        assert(line[0] == '{');
        assert(is_line_of(line, written[last]) && recoverable(written[last]));
        assert((current + rest).push(written[last]) =~= current + written);
    }
}

/// Where the first lines of a text that extends another are read, each giving back
/// what it was written for, they hold no report.
proof fn lemma_no_report(
    before: Seq<char>,
    written: Seq<FactModel>,
    current: Seq<FactModel>,
    upto: int,
)
    requires
        extends(before + log_text(written), before, written),
        all_recoverable(written),
        log_parsed(before) == Ok::<Seq<FactModel>, Seq<char>>(current),
        0 <= upto <= lines_of(before + log_text(written)).len(),
        forall|k: int|
            0 <= k < upto ==> gives_back(#[trigger] lines_of(before + log_text(written))[k]),
    ensures
        lines_parsed(lines_of(before + log_text(written)).take(upto)) is Ok,
        upto == lines_of(before + log_text(written)).len() ==> log_parsed(
            before + log_text(written),
        ) == Ok::<Seq<FactModel>, Seq<char>>(current + written),
{
    lemma_split_extended(before, written);
    let lines = lines_of(before);
    let all = lines_of(before + log_text(written));
    assert(all == lines + fact_lines(written));
    let n = lines.len() as int;
    if upto < n {
        assert(all.take(upto) =~= lines.take(upto));
        if lines_parsed(lines.take(upto)) is Err {
            lemma_report_stays(lines, upto);
        }
    } else {
        let some = written.take(upto - n);
        assert forall|i: int| 0 <= i < some.len() implies recoverable(#[trigger] some[i])
            && is_line_of(line_text(some[i]), some[i]) && gives_back(line_text(some[i])) by {
            assert(some[i] == written[i]);
            assert(all[n + i] == fact_lines(written)[i]);
        }
        lemma_lines_added(lines, current, some);
        assert(all.take(upto) =~= lines + fact_lines(some));
        if upto == all.len() {
            assert(some =~= written);
            assert(all.take(upto) =~= all);
        }
    }
}

/// The text of two logs, one behind the other.
proof fn lemma_log_text_add(a: Seq<FactModel>, b: Seq<FactModel>)
    ensures
        log_text(a + b) == log_text(a) + log_text(b),
    decreases b.len(),
{
    if b.len() == 0 {
        assert(a + b =~= a);
        assert(log_text(a) + log_text(b) =~= log_text(a));
    } else {
        let rest = b.drop_last();
        lemma_log_text_add(a, rest);
        assert((a + b).drop_last() =~= a + rest);
        assert((a + b).last() == b.last());
        assert(log_text(a + b) =~= log_text(a) + log_text(b));
    }
}

/// Writing further facts behind a log gives the log with those facts.
pub proof fn law_log_text_grows(
    text: Seq<char>,
    facts: Seq<FactModel>,
    added: Seq<char>,
    further: Seq<FactModel>,
)
    requires
        is_log_of(text, facts),
        is_log_of(added, further),
    ensures
        is_log_of(text + added, facts + further),
{
    lemma_log_text_add(facts, further);
    let all = facts + further;
    assert forall|i: int| 0 <= i < all.len() implies is_line_of(
        line_text(#[trigger] all[i]),
        all[i],
    ) by {
        if i < facts.len() {
            assert(all[i] == facts[i]);
        } else {
            assert(all[i] == further[i - facts.len()]);
        }
    }
}

/// A report on a line stays the report on all lines.
proof fn lemma_report_stays(lines: Seq<Seq<char>>, upto: int)
    requires
        0 <= upto <= lines.len(),
        lines_parsed(lines.take(upto)) is Err,
    ensures
        lines_parsed(lines) == lines_parsed(lines.take(upto)),
    decreases lines.len(),
{
    if upto == lines.len() {
        assert(lines.take(upto) =~= lines);
    } else {
        let rest = lines.drop_last();
        assert(rest.take(upto) =~= lines.take(upto));
        lemma_report_stays(rest, upto);
    }
}

/// Cuts a text into its lines.
pub fn split_lines(text: &str) -> (lines: Vec<String>)
    ensures
        texts(lines@) == lines_of(text@),
{
    let chars = chars_of(text);
    let mut lines: Vec<String> = Vec::new();
    let mut line = String::new();
    let mut held = false;
    let mut i: usize = 0;
    proof {
        assert(text@.take(0) =~= Seq::empty());
        assert(texts(lines@) =~= Seq::empty());
    }
    while i < chars.len()
        invariant
            i <= chars@.len(),
            chars@ == text@,
            texts(lines@) == split(text@.take(i as int)).done,
            split(text@.take(i as int)).open == if held {
                line@.push('\r')
            } else {
                line@
            },
            !held && line@.len() > 0 ==> line@.last() != '\r',
        decreases chars.len() - i,
    {
        let c = chars[i];
        let ghost before = split(text@.take(i as int));
        proof {
            assert(text@.take(i + 1).drop_last() =~= text@.take(i as int));
            assert(text@.take(i + 1).last() == c);
        }
        if c == '\n' {
            proof {
                assert(line@.push('\r').drop_last() =~= line@);
            }
            let ghost ended = lines@;
            lines.push(line);
            proof {
                assert(texts(lines@) =~= texts(ended).push(without_return(before.open)));
            }
            line = String::new();
            held = false;
        } else {
            if held {
                line.push('\r');
            }
            if c == '\r' {
                held = true;
            } else {
                line.push(c);
                held = false;
            }
        }
        i += 1;
    }
    proof {
        assert(text@.take(text@.len() as int) =~= text@);
    }
    if held {
        line.push('\r');
    }
    if !line.as_str().is_empty() {
        let ghost ended = lines@;
        let ghost last = line@;
        lines.push(line);
        proof {
            assert(texts(lines@) =~= texts(ended).push(last));
        }
    }
    lines
}

/// Reads the text of a log. Empty lines are passed over; the first line that is no
/// fact is reported.
///
/// Recoverable facts that were written behind a text are given back behind the
/// facts of that text, whoever wrote it, where its last line has ended. So a text
/// that was written for recoverable facts gives those facts back.
pub fn parse_log(raw: &str) -> (parsed: Result<Vec<Fact>, ActorError>)
    ensures
        parsed matches Ok(facts) ==> (log_parsed(raw@) matches Ok(log) && log == said(facts@)),
        parsed matches Err(error) ==> (log_parsed(raw@) matches Err(report) && error@
            == ErrorModel::Schema(report)),
        forall|before: Seq<char>, written: Seq<FactModel>| #[trigger]
            extends(raw@, before, written) && all_recoverable(written) ==> (log_parsed(
                before,
            ) matches Ok(current) ==> (parsed matches Ok(facts) && said(facts@) == current
                + written)),
        forall|written: Seq<FactModel>| #[trigger]
            is_log_of(raw@, written) && all_recoverable(written) ==> (parsed matches Ok(facts)
                && said(facts@) == written),
{
    let lines = split_lines(raw);
    let ghost all = lines_of(raw@);
    let mut facts: Vec<Fact> = Vec::new();
    let mut i: usize = 0;
    proof {
        assert(all.take(0) =~= Seq::empty());
        assert(said(facts@) =~= Seq::empty());
    }
    while i < lines.len()
        invariant
            i <= lines@.len(),
            all == lines_of(raw@),
            texts(lines@) == all,
            lines_parsed(all.take(i as int)) == Ok::<Seq<FactModel>, Seq<char>>(said(facts@)),
            forall|k: int| 0 <= k < i ==> gives_back(#[trigger] all[k]),
        decreases lines.len() - i,
    {
        let ghost before = said(facts@);
        let line = lines[i].as_str();
        proof {
            assert(line@ == all[i as int]);
            assert(all.take(i + 1).drop_last() =~= all.take(i as int));
            assert(all.take(i + 1).last() == line@);
        }
        if !line.is_empty() {
            match parse_fact_json(line) {
                Ok(fact) => {
                    facts.push(fact);
                    proof {
                        assert(said(facts@) =~= before.push(fact@));
                        assert(gives_back(line@));
                    }
                },
                Err(error) => {
                    proof {
                        lemma_report_stays(all, i + 1);
                        assert(gives_back(line@));
                        lemma_read_back(raw@, i + 1);
                    }
                    return Err(error);
                },
            }
        } else {
            assert forall|fact: FactModel| #[trigger] is_line_of(line@, fact) implies false by {
                assert(line_text(fact)[0] == '{');
            }
        }
        i += 1;
    }
    proof {
        assert(all.take(all.len() as int) =~= all);
        lemma_read_back(raw@, all.len() as int);
    }
    Ok(facts)
}

/// What was written behind a text is read behind what the text reads as.
proof fn lemma_read_back(text: Seq<char>, upto: int)
    requires
        0 <= upto <= lines_of(text).len(),
        forall|k: int| 0 <= k < upto ==> gives_back(#[trigger] lines_of(text)[k]),
        upto == lines_of(text).len() || lines_parsed(lines_of(text).take(upto)) is Err,
    ensures
        forall|before: Seq<char>, written: Seq<FactModel>| #[trigger]
            extends(text, before, written) && all_recoverable(written) ==> (log_parsed(
                before,
            ) matches Ok(current) ==> log_parsed(text) == Ok::<Seq<FactModel>, Seq<char>>(
                current + written,
            )),
        forall|written: Seq<FactModel>| #[trigger]
            is_log_of(text, written) && all_recoverable(written) ==> log_parsed(text) == Ok::<
                Seq<FactModel>,
                Seq<char>,
            >(written),
{
    assert forall|before: Seq<char>, written: Seq<FactModel>| #[trigger]
        extends(text, before, written) && all_recoverable(written) && log_parsed(
            before,
        ) is Ok implies log_parsed(text) == Ok::<Seq<FactModel>, Seq<char>>(
        log_parsed(before)->Ok_0 + written,
    ) by {
        lemma_no_report(before, written, log_parsed(before)->Ok_0, upto);
    }
    assert forall|written: Seq<FactModel>| #[trigger]
        is_log_of(text, written) && all_recoverable(written) implies log_parsed(text) == Ok::<
        Seq<FactModel>,
        Seq<char>,
    >(written) by {
        let none = Seq::<char>::empty();
        assert(none + log_text(written) =~= text);
        assert(extends(text, none, written));
        assert(log_parsed(none) == Ok::<Seq<FactModel>, Seq<char>>(Seq::empty()));
        assert(Seq::<FactModel>::empty() + written =~= written);
    }
}

/// Writes the text of facts.
pub fn write_log(facts: &[Fact]) -> (text: String)
    ensures
        is_log_of(text@, said(facts@)),
{
    let ghost all = said(facts@);
    let mut text = String::new();
    let mut i: usize = 0;
    proof {
        assert(all.take(0) =~= Seq::empty());
    }
    while i < facts.len()
        invariant
            i <= facts@.len(),
            all == said(facts@),
            is_log_of(text@, all.take(i as int)),
        decreases facts.len() - i,
    {
        let line = fact_line(&facts[i]);
        text.append(line.as_str());
        text.push('\n');
        proof {
            let upto = all.take(i + 1);
            assert(upto.drop_last() =~= all.take(i as int));
            assert(upto.last() == facts@[i as int]@);
            assert forall|k: int| 0 <= k < upto.len() implies is_line_of(
                line_text(#[trigger] upto[k]),
                upto[k],
            ) by {
                if k < i {
                    assert(upto[k] == all.take(i as int)[k]);
                }
            }
        }
        i += 1;
    }
    proof {
        assert(all.take(all.len() as int) =~= all);
    }
    text
}

/// What appending to a log does to its file: the log that follows, and the text to
/// write behind the file, which is empty where the log stays as it is.
pub struct LogAppend {
    pub next: Vec<Fact>,
    pub added: String,
}

/// Plans an append to a file that holds `current`. The file with the added text
/// holds the log that follows; whatever else stands in the file, as long as its
/// last line has ended, the added text stands behind it on lines of its own.
pub fn plan_append(current: &[Fact], facts: &[NewFact], cause: Option<&str>) -> (plan: Result<
    LogAppend,
    ActorError,
>)
    requires
        has_room(said(current@), said_new(facts@)),
    ensures
        match committed(said(current@), said_new(facts@), str_opt(cause)) {
            Ok(log) => plan matches Ok(append) && {
                &&& said(append.next@) == log
                &&& is_log_of(append.added@, log.skip(current@.len() as int))
                &&& forall|file: Seq<char>| #[trigger]
                    is_log_of(file, said(current@)) ==> is_log_of(file + append.added@, log)
                &&& forall|file: Seq<char>| #[trigger]
                    ended(file) ==> extends(
                        file + append.added@,
                        file,
                        log.skip(current@.len() as int),
                    )
            },
            Err(taken) => plan matches Err(error) && error@ == (ErrorModel::DuplicateFact {
                key: taken,
            }),
        },
{
    let next = match commit(current, facts, cause) {
        Ok(next) => next,
        Err(error) => return Err(error),
    };
    let ghost log = said(next@);
    let ghost before = said(current@);
    proof {
        law_log_grows(before, said_new(facts@), str_opt(cause));
    }
    let fresh = vstd::slice::slice_subrange(next.as_slice(), current.len(), next.len());
    let added = write_log(fresh);
    proof {
        assert(said(fresh@) =~= log.skip(before.len() as int));
        assert forall|file: Seq<char>| #[trigger] is_log_of(file, before) implies is_log_of(
            file + added@,
            log,
        ) by {
            law_log_text_grows(file, before, added@, said(fresh@));
            assert(before + said(fresh@) =~= log) by {
                assert(before =~= log.subrange(0, before.len() as int));
            }
        }
    }
    Ok(LogAppend { next, added })
}

} // verus!
