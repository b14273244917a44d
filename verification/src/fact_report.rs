//! What is wrong with a text that spells no fact, and where.
//!
//! A record is followed through its text: serde_json reads each name and each
//! value where it stands, and the first fault ends the reading. A fault of the
//! record itself, such as a field that facts do not have, is placed by line and
//! column as serde_json places it.

use vstd::prelude::*;

use crate::fact::utf8;
use crate::json::{from_value, value_model, JsonModel};
use crate::schema::{missing, report_missing, report_wrong_length, report_wrong_type, wrong_length,
    wrong_type};
use crate::text::{concat3, decimal, decimal_text, same_text, str_opt, text_opt};

verus! {

/// What comes of reading an unsigned number at the start of a text with
/// serde_json: where the number ends, or the message of the error.
pub uninterp spec fn count_passed(bytes: Seq<u8>) -> Result<nat, Seq<char>>;

/// What comes of reading a text, or null in its place, at the start of a text with
/// serde_json: where it ends, or the message of the error.
pub uninterp spec fn optional_passed(bytes: Seq<u8>) -> Result<nat, Seq<char>>;

/// What comes of reading a text at the start of a text with serde_json: what it
/// says and where it ends, or the message of the error.
pub uninterp spec fn text_passed(bytes: Seq<u8>) -> Result<(Seq<char>, nat), Seq<char>>;

/// What comes of reading any value at the start of a text with serde_json: the
/// value and where it ends, or the message of the error.
pub uninterp spec fn value_passed(bytes: Seq<u8>) -> Result<(JsonModel, nat), Seq<char>>;

/// `u64::deserialize` reads an unsigned number from a `serde_json::Deserializer`
/// and leaves the rest of the bytes unread; `byte_offset` tells where it stopped.
#[verifier::external_body]
fn pass_count(bytes: &[u8]) -> (passed: Result<usize, String>)
    ensures
        passed matches Ok(end) ==> (count_passed(bytes@) matches Ok(told) && told == end),
        passed matches Err(message) ==> (count_passed(bytes@) matches Err(told) && told
            == message@),
{
    let mut reader = serde_json::Deserializer::from_slice(bytes);
    match <u64 as serde::Deserialize>::deserialize(&mut reader) {
        Ok(_) => Ok(reader.into_iter::<u64>().byte_offset()),
        Err(error) => Err(error.to_string()),
    }
}

/// `Option::<String>::deserialize` reads a text or null from a
/// `serde_json::Deserializer` and leaves the rest of the bytes unread;
/// `byte_offset` tells where it stopped.
#[verifier::external_body]
fn pass_optional(bytes: &[u8]) -> (passed: Result<usize, String>)
    ensures
        passed matches Ok(end) ==> (optional_passed(bytes@) matches Ok(told) && told == end),
        passed matches Err(message) ==> (optional_passed(bytes@) matches Err(told) && told
            == message@),
{
    let mut reader = serde_json::Deserializer::from_slice(bytes);
    match <Option<String> as serde::Deserialize>::deserialize(&mut reader) {
        Ok(_) => Ok(reader.into_iter::<u64>().byte_offset()),
        Err(error) => Err(error.to_string()),
    }
}

/// `String::deserialize` reads a text from a `serde_json::Deserializer` and leaves
/// the rest of the bytes unread; `byte_offset` tells where it stopped.
#[verifier::external_body]
fn pass_text(bytes: &[u8]) -> (passed: Result<(String, usize), String>)
    ensures
        passed matches Ok(read) ==> (text_passed(bytes@) matches Ok(told) && told.0 == read.0@
            && told.1 == read.1),
        passed matches Err(message) ==> (text_passed(bytes@) matches Err(told) && told
            == message@),
{
    let mut reader = serde_json::Deserializer::from_slice(bytes);
    match <String as serde::Deserialize>::deserialize(&mut reader) {
        Ok(text) => Ok((text, reader.into_iter::<u64>().byte_offset())),
        Err(error) => Err(error.to_string()),
    }
}

/// `serde_json::Value::deserialize` reads a value from a `serde_json::Deserializer`
/// and leaves the rest of the bytes unread; `byte_offset` tells where it stopped.
#[verifier::external_body]
fn pass_value(bytes: &[u8]) -> (passed: Result<(serde_json::Value, usize), String>)
    ensures
        passed matches Ok(read) ==> (value_passed(bytes@) matches Ok(told) && told.0
            == value_model(read.0) && told.1 == read.1),
        passed matches Err(message) ==> (value_passed(bytes@) matches Err(told) && told
            == message@),
{
    let mut reader = serde_json::Deserializer::from_slice(bytes);
    match <serde_json::Value as serde::Deserialize>::deserialize(&mut reader) {
        Ok(value) => Ok((value, reader.into_iter::<u64>().byte_offset())),
        Err(error) => Err(error.to_string()),
    }
}

/// A byte that JSON passes over between its tokens: a space, a line break, a tab or
/// a carriage return.
pub open spec fn is_space(byte: u8) -> bool {
    byte == 0x20 || byte == 0x0a || byte == 0x09 || byte == 0x0d
}

/// The first place from `at` on that is no space.
pub open spec fn past_space(bytes: Seq<u8>, at: nat) -> nat
    decreases bytes.len() - at,
{
    if at < bytes.len() && is_space(bytes[at as int]) {
        past_space(bytes, at + 1)
    } else {
        at
    }
}

/// Whether this byte stands at this place.
pub open spec fn stands(bytes: Seq<u8>, at: nat, byte: u8) -> bool {
    at < bytes.len() && bytes[at as int] == byte
}

/// A text with spaces in place of all before `upto`, but for the line breaks: what
/// is read from it stands at the line and column where it stood.
pub open spec fn blanked(bytes: Seq<u8>, upto: nat) -> Seq<u8> {
    Seq::new(
        bytes.len(),
        |i: int|
            if i < upto && bytes[i] != 0x0a {
                0x20u8
            } else {
                bytes[i]
            },
    )
}

/// The line of a place, counted from one.
pub open spec fn line_at(bytes: Seq<u8>, at: nat) -> nat
    decreases at,
{
    if at == 0 {
        1
    } else if bytes[at - 1] == 0x0a {
        line_at(bytes, (at - 1) as nat) + 1
    } else {
        line_at(bytes, (at - 1) as nat)
    }
}

/// How many bytes of its line stand before a place.
pub open spec fn column_at(bytes: Seq<u8>, at: nat) -> nat
    decreases at,
{
    if at == 0 || bytes[at - 1] == 0x0a {
        0
    } else {
        column_at(bytes, (at - 1) as nat) + 1
    }
}

/// A sentence and the place that it speaks of.
pub open spec fn placed(sentence: Seq<char>, bytes: Seq<u8>, at: nat) -> Seq<char> {
    sentence + " at line "@ + decimal(line_at(bytes, at)) + " column "@ + decimal(
        column_at(bytes, at),
    )
}

/// The place behind the byte that a reader looks at.
pub open spec fn behind(bytes: Seq<u8>, at: nat) -> nat {
    if at < bytes.len() {
        at + 1
    } else {
        bytes.len()
    }
}

/// Where the reader of an object stands once it has given up at `at`: behind spaces
/// and behind the closing brace, if that is what follows.
pub open spec fn given_up(bytes: Seq<u8>, at: nat) -> nat {
    let next = past_space(bytes, at);
    if stands(bytes, next, 0x7d) {
        next + 1
    } else {
        next
    }
}

/// The position of a field in the order in which a line spells them.
pub open spec fn field_at(name: Seq<char>) -> Option<nat> {
    if name == "seq"@ {
        Some(0)
    } else if name == "type"@ {
        Some(1)
    } else if name == "key"@ {
        Some(2)
    } else if name == "cause"@ {
        Some(3)
    } else if name == "payload"@ {
        Some(4)
    } else {
        None
    }
}

/// The report of a field that facts do not have.
pub open spec fn unknown_field(name: Seq<char>) -> Seq<char> {
    "unknown field `"@ + name + "`, expected one of `seq`, `type`, `key`, `cause`, `payload`"@
}

/// The report of a field that stands twice.
pub open spec fn duplicate_field(name: Seq<char>) -> Seq<char> {
    "duplicate field `"@ + name + "`"@
}

/// The first field that a fact needs and that was not there.
pub open spec fn first_absent(seen: Seq<bool>) -> Option<Seq<char>> {
    if !seen[0] {
        Some("seq"@)
    } else if !seen[1] {
        Some("type"@)
    } else if !seen[2] {
        Some("key"@)
    } else if !seen[4] {
        Some("payload"@)
    } else {
        None
    }
}

/// What following a text came to: the place that was reached, a fault and its
/// report, or an end where the text is no JSON.
pub enum Passage {
    Reached(nat),
    Fault(Seq<char>),
    Broken,
}

/// A place that was reached behind another one, in the text.
pub open spec fn reached(bytes: Seq<u8>, from: nat, to: nat) -> Passage {
    if from < to <= bytes.len() {
        Passage::Reached(to)
    } else {
        Passage::Broken
    }
}

/// A part of a text as the only element of an array, so as deep as in a record.
pub open spec fn enclosed(bytes: Seq<u8>, from: nat, to: nat) -> Seq<u8> {
    seq![0x5bu8] + bytes.subrange(from as int, to as int) + seq![0x5du8]
}

/// Reading the value of a field from `at` on: the number, the kind, the key, the
/// cause, or the payload, which may be any value.
pub open spec fn field_passed(bytes: Seq<u8>, at: nat, field: nat) -> Passage {
    if field == 0 {
        match count_passed(blanked(bytes, at)) {
            Ok(end) => reached(bytes, at, end),
            Err(message) => Passage::Fault(message),
        }
    } else if field == 1 || field == 2 {
        match text_passed(blanked(bytes, at)) {
            Ok(read) => reached(bytes, at, read.1),
            Err(message) => Passage::Fault(message),
        }
    } else if field == 3 {
        match optional_passed(blanked(bytes, at)) {
            Ok(end) => reached(bytes, at, end),
            Err(message) => Passage::Fault(message),
        }
    } else {
        match value_passed(blanked(bytes, at)) {
            Ok(read) => if at < read.1 <= bytes.len() && value_passed(
                enclosed(bytes, at, read.1),
            ) is Ok {
                Passage::Reached(read.1)
            } else {
                Passage::Broken
            },
            Err(_) => Passage::Broken,
        }
    }
}

/// Where the next member of an object or element of an array starts: behind a
/// comma, if it is not the first. Where no comma stands, nothing follows.
pub open spec fn next_from(bytes: Seq<u8>, at: nat, first: bool) -> nat {
    let next = past_space(bytes, at);
    if first {
        next
    } else if stands(bytes, next, 0x2c) {
        past_space(bytes, next + 1)
    } else {
        bytes.len()
    }
}

/// What the name of a member leads to, where it was read from this quote on and the
/// fields in `seen` have been there: the place behind its colon and its field.
pub open spec fn name_judged(
    bytes: Seq<u8>,
    quote: nat,
    read: Result<(Seq<char>, nat), Seq<char>>,
    seen: Seq<bool>,
) -> (Passage, nat) {
    match read {
        Err(message) => (Passage::Fault(message), 0),
        Ok((name, end)) => if quote < end <= bytes.len() {
            match field_at(name) {
                None => (
                    Passage::Fault(placed(unknown_field(name), bytes, given_up(bytes, end))),
                    0,
                ),
                Some(field) => if seen[field as int] {
                    (
                        Passage::Fault(placed(duplicate_field(name), bytes, given_up(bytes, end))),
                        0,
                    )
                } else {
                    let colon = past_space(bytes, end);
                    if stands(bytes, colon, 0x3a) {
                        (Passage::Reached(colon + 1), field)
                    } else {
                        (Passage::Broken, 0)
                    }
                },
            }
        } else {
            (Passage::Broken, 0)
        },
    }
}

/// Reading a member from the quote of its name on, where the fields in `seen` have
/// been there.
pub open spec fn member_passed(bytes: Seq<u8>, quote: nat, seen: Seq<bool>) -> (Passage, nat) {
    match name_judged(bytes, quote, text_passed(blanked(bytes, quote)), seen) {
        (Passage::Reached(from), field) => (field_passed(bytes, from, field), field),
        (stopped, _) => (stopped, 0),
    }
}

/// The fault of an object from `at` on, where the fields in `seen` have been there.
pub open spec fn members_fault(bytes: Seq<u8>, at: nat, first: bool, seen: Seq<bool>) -> Option<
    Seq<char>,
>
    decreases bytes.len() - at,
{
    if stands(bytes, past_space(bytes, at), 0x7d) {
        match first_absent(seen) {
            Some(name) => Some(placed(missing(name), bytes, given_up(bytes, at))),
            None => None,
        }
    } else {
        let quote = next_from(bytes, at, first);
        if stands(bytes, quote, 0x22) {
            match member_passed(bytes, quote, seen) {
                (Passage::Fault(report), _) => Some(report),
                (Passage::Broken, _) => None,
                (Passage::Reached(end), field) => if at < end <= bytes.len() {
                    members_fault(bytes, end, false, seen.update(field as int, true))
                } else {
                    None
                },
            }
        } else {
            None
        }
    }
}

/// The fault behind the last element that a fact needs.
pub open spec fn closing_fault(bytes: Seq<u8>, at: nat) -> Option<Seq<char>> {
    let next = past_space(bytes, at);
    if next >= bytes.len() || bytes[next as int] == 0x5d {
        None
    } else if bytes[next as int] == 0x2c {
        let more = past_space(bytes, next + 1);
        if stands(bytes, more, 0x5d) {
            Some(placed("trailing comma"@, bytes, behind(bytes, more)))
        } else {
            Some(placed("trailing characters"@, bytes, behind(bytes, more)))
        }
    } else {
        Some(placed("trailing characters"@, bytes, behind(bytes, next)))
    }
}

/// The fault of an array from `at` on, behind so many of its elements.
pub open spec fn elements_fault(bytes: Seq<u8>, at: nat, count: nat) -> Option<Seq<char>>
    decreases 5 - count,
{
    if count >= 5 {
        closing_fault(bytes, at)
    } else if stands(bytes, past_space(bytes, at), 0x5d) {
        Some(
            placed(
                wrong_length(count, "struct FactDto with 5 elements"@),
                bytes,
                past_space(bytes, at) + 1,
            ),
        )
    } else {
        let from = next_from(bytes, at, count == 0);
        if from < bytes.len() && bytes[from as int] != 0x5d {
            match field_passed(bytes, from, count) {
                Passage::Fault(report) => Some(report),
                Passage::Broken => None,
                Passage::Reached(end) => elements_fault(bytes, end, count + 1),
            }
        } else {
            None
        }
    }
}

/// The fault of a text as the record of a fact. Where there is none, the text is no
/// JSON, or a fact.
pub open spec fn record_fault(bytes: Seq<u8>) -> Option<Seq<char>> {
    let start = past_space(bytes, 0);
    if stands(bytes, start, 0x7b) {
        members_fault(bytes, start + 1, true, seq![false, false, false, false, false])
    } else if stands(bytes, start, 0x5b) {
        elements_fault(bytes, start + 1, 0)
    } else {
        match value_passed(bytes) {
            Ok(read) => if read.1 <= bytes.len() {
                Some(placed(wrong_type(read.0, "struct FactDto"@), bytes, read.1))
            } else {
                None
            },
            Err(_) => None,
        }
    }
}

/// Finds the first place from `at` on that is no space.
fn skip_space(bytes: &[u8], at: usize) -> (next: usize)
    requires
        at <= bytes@.len(),
    ensures
        next == past_space(bytes@, at as nat),
        at <= next <= bytes@.len(),
{
    let mut next: usize = at;
    while next < bytes.len() && (bytes[next] == 0x20 || bytes[next] == 0x0a || bytes[next] == 0x09
        || bytes[next] == 0x0d)
        invariant
            at <= next <= bytes@.len(),
            past_space(bytes@, at as nat) == past_space(bytes@, next as nat),
        decreases bytes.len() - next,
    {
        next += 1;
    }
    next
}

/// Puts spaces in place of all before `upto`, but for the line breaks.
fn blank(bytes: &[u8], upto: usize) -> (kept: Vec<u8>)
    ensures
        kept@ == blanked(bytes@, upto as nat),
{
    let mut kept: Vec<u8> = Vec::new();
    let mut i: usize = 0;
    while i < bytes.len()
        invariant
            i <= bytes@.len(),
            kept@.len() == i,
            forall|k: int| 0 <= k < i ==> #[trigger] kept@[k] == blanked(bytes@, upto as nat)[k],
        decreases bytes.len() - i,
    {
        if i < upto && bytes[i] != 0x0a {
            kept.push(0x20);
        } else {
            kept.push(bytes[i]);
        }
        i += 1;
    }
    assert(kept@ =~= blanked(bytes@, upto as nat));
    kept
}

/// Makes a part of a text the only element of an array.
fn enclose(bytes: &[u8], from: usize, to: usize) -> (array: Vec<u8>)
    requires
        from <= to <= bytes@.len(),
    ensures
        array@ == enclosed(bytes@, from as nat, to as nat),
{
    let mut array: Vec<u8> = vec![0x5b];
    let mut i: usize = from;
    assert(array@ =~= seq![0x5bu8] + bytes@.subrange(from as int, i as int));
    while i < to
        invariant
            from <= i <= to <= bytes@.len(),
            array@ == seq![0x5bu8] + bytes@.subrange(from as int, i as int),
        decreases to - i,
    {
        array.push(bytes[i]);
        i += 1;
        assert(array@ =~= seq![0x5bu8] + bytes@.subrange(from as int, i as int));
    }
    array.push(0x5d);
    assert(array@ =~= enclosed(bytes@, from as nat, to as nat));
    array
}

/// Adds the place that a sentence speaks of.
pub fn place(sentence: &str, bytes: &[u8], at: usize) -> (report: String)
    requires
        at <= bytes@.len(),
    ensures
        report@ == placed(sentence@, bytes@, at as nat),
{
    let mut line: u128 = 1;
    let mut column: u128 = 0;
    let mut i: usize = 0;
    while i < at
        invariant
            i <= at <= bytes@.len(),
            line == line_at(bytes@, i as nat),
            column == column_at(bytes@, i as nat),
            line <= i + 1,
            column <= i,
        decreases at - i,
    {
        if bytes[i] == 0x0a {
            line += 1;
            column = 0;
        } else {
            column += 1;
        }
        i += 1;
    }
    let head = concat3(sentence, " at line ", decimal_text(line).as_str());
    concat3(head.as_str(), " column ", decimal_text(column).as_str())
}

/// What following a text came to.
pub enum Step {
    Reached(usize),
    Fault(String),
    Broken,
}

impl View for Step {
    type V = Passage;

    open spec fn view(&self) -> Passage {
        match self {
            Step::Reached(to) => Passage::Reached(*to as nat),
            Step::Fault(report) => Passage::Fault(report@),
            Step::Broken => Passage::Broken,
        }
    }
}

fn reach(bytes: &[u8], from: usize, to: usize) -> (step: Step)
    ensures
        step@ == reached(bytes@, from as nat, to as nat),
{
    if from < to && to <= bytes.len() {
        Step::Reached(to)
    } else {
        Step::Broken
    }
}

/// Reads the value of a field from `at` on.
fn pass_field(bytes: &[u8], at: usize, field: usize) -> (step: Step)
    requires
        at <= bytes@.len(),
    ensures
        step@ == field_passed(bytes@, at as nat, field as nat),
{
    let kept = blank(bytes, at);
    if field == 0 {
        match pass_count(kept.as_slice()) {
            Ok(end) => reach(bytes, at, end),
            Err(message) => Step::Fault(message),
        }
    } else if field == 1 || field == 2 {
        match pass_text(kept.as_slice()) {
            Ok(read) => reach(bytes, at, read.1),
            Err(message) => Step::Fault(message),
        }
    } else if field == 3 {
        match pass_optional(kept.as_slice()) {
            Ok(end) => reach(bytes, at, end),
            Err(message) => Step::Fault(message),
        }
    } else {
        match pass_value(kept.as_slice()) {
            Ok(read) => {
                if at < read.1 && read.1 <= bytes.len() {
                    match pass_value(enclose(bytes, at, read.1).as_slice()) {
                        Ok(_) => Step::Reached(read.1),
                        Err(_) => Step::Broken,
                    }
                } else {
                    Step::Broken
                }
            },
            Err(_) => Step::Broken,
        }
    }
}

/// Finds the position of a field.
fn find_field(name: &str) -> (field: Option<usize>)
    ensures
        field matches Some(at) ==> at < 5 && field_at(name@) == Some(at as nat),
        field is None ==> field_at(name@) is None,
{
    if same_text(name, "seq") {
        Some(0)
    } else if same_text(name, "type") {
        Some(1)
    } else if same_text(name, "key") {
        Some(2)
    } else if same_text(name, "cause") {
        Some(3)
    } else if same_text(name, "payload") {
        Some(4)
    } else {
        None
    }
}

/// Finds where the next member of an object or element of an array starts.
fn find_next(bytes: &[u8], at: usize, first: bool) -> (from: usize)
    requires
        at <= bytes@.len(),
    ensures
        from == next_from(bytes@, at as nat, first),
        at <= from <= bytes@.len(),
{
    let next = skip_space(bytes, at);
    if first {
        next
    } else if next < bytes.len() && bytes[next] == 0x2c {
        skip_space(bytes, next + 1)
    } else {
        bytes.len()
    }
}

/// Finds where the reader of an object stands once it has given up.
fn give_up(bytes: &[u8], at: usize) -> (end: usize)
    requires
        at <= bytes@.len(),
    ensures
        end == given_up(bytes@, at as nat),
        end <= bytes@.len(),
{
    let next = skip_space(bytes, at);
    if next < bytes.len() && bytes[next] == 0x7d {
        next + 1
    } else {
        next
    }
}

/// What a name that was read says.
pub open spec fn name_model(read: Result<(String, usize), String>) -> Result<
    (Seq<char>, nat),
    Seq<char>,
> {
    match read {
        Ok((name, end)) => Ok((name@, end as nat)),
        Err(message) => Err(message@),
    }
}

/// Judges the name of a member that was read from this quote on.
pub fn judge_name(
    bytes: &[u8],
    quote: usize,
    read: Result<(String, usize), String>,
    seen: &Vec<bool>,
) -> (judged: (Step, usize))
    requires
        quote <= bytes@.len(),
        seen@.len() == 5,
    ensures
        judged.0@ == name_judged(bytes@, quote as nat, name_model(read), seen@).0,
        judged.1 == name_judged(bytes@, quote as nat, name_model(read), seen@).1,
        judged.1 < 5,
        judged.0 matches Step::Reached(from) ==> quote < from <= bytes@.len(),
{
    let (name, end) = match read {
        Err(message) => return (Step::Fault(message), 0),
        Ok(read) => read,
    };
    if quote >= end || end > bytes.len() {
        return (Step::Broken, 0);
    }
    match find_field(name.as_str()) {
        None => {
            let sentence = concat3(
                "unknown field `",
                name.as_str(),
                "`, expected one of `seq`, `type`, `key`, `cause`, `payload`",
            );
            (Step::Fault(place(sentence.as_str(), bytes, give_up(bytes, end))), 0)
        },
        Some(field) => if seen[field] {
            let sentence = concat3("duplicate field `", name.as_str(), "`");
            (Step::Fault(place(sentence.as_str(), bytes, give_up(bytes, end))), 0)
        } else {
            let colon = skip_space(bytes, end);
            if colon < bytes.len() && bytes[colon] == 0x3a {
                (Step::Reached(colon + 1), field)
            } else {
                (Step::Broken, 0)
            }
        },
    }
}

/// Reads a member from the quote of its name on.
fn pass_member(bytes: &[u8], quote: usize, seen: &Vec<bool>) -> (passed: (Step, usize))
    requires
        quote <= bytes@.len(),
        seen@.len() == 5,
    ensures
        passed.0@ == member_passed(bytes@, quote as nat, seen@).0,
        passed.1 == member_passed(bytes@, quote as nat, seen@).1,
        passed.1 < 5,
{
    let read = pass_text(blank(bytes, quote).as_slice());
    assert(name_model(read) == text_passed(blanked(bytes@, quote as nat)));
    match judge_name(bytes, quote, read, seen) {
        (Step::Reached(from), field) => (pass_field(bytes, from, field), field),
        (stopped, _) => (stopped, 0),
    }
}

/// Finds the first field that a fact needs and that was not there.
fn find_absent(seen: &Vec<bool>) -> (name: Option<&'static str>)
    requires
        seen@.len() == 5,
    ensures
        str_opt(name) == first_absent(seen@),
{
    if !seen[0] {
        Some("seq")
    } else if !seen[1] {
        Some("type")
    } else if !seen[2] {
        Some("key")
    } else if !seen[4] {
        Some("payload")
    } else {
        None
    }
}

/// Finds the fault of an object.
fn find_members_fault(bytes: &[u8], at: usize, first: bool, seen: Vec<bool>) -> (fault: Option<
    String,
>)
    requires
        at <= bytes@.len(),
        seen@.len() == 5,
    ensures
        text_opt(fault) == members_fault(bytes@, at as nat, first, seen@),
    decreases bytes@.len() - at,
{
    let next = skip_space(bytes, at);
    if next < bytes.len() && bytes[next] == 0x7d {
        return match find_absent(&seen) {
            Some(name) => Some(
                place(report_missing(name).as_str(), bytes, give_up(bytes, at)),
            ),
            None => None,
        };
    }
    let quote = find_next(bytes, at, first);
    if quote >= bytes.len() || bytes[quote] != 0x22 {
        return None;
    }
    match pass_member(bytes, quote, &seen) {
        (Step::Fault(report), _) => Some(report),
        (Step::Broken, _) => None,
        (Step::Reached(end), field) => {
            if at < end && end <= bytes.len() {
                let mut seen = seen;
                seen.set(field, true);
                find_members_fault(bytes, end, false, seen)
            } else {
                None
            }
        },
    }
}

/// Finds the fault behind the last element that a fact needs.
pub fn find_closing_fault(bytes: &[u8], at: usize) -> (fault: Option<String>)
    requires
        at <= bytes@.len(),
    ensures
        text_opt(fault) == closing_fault(bytes@, at as nat),
{
    let next = skip_space(bytes, at);
    if next >= bytes.len() || bytes[next] == 0x5d {
        None
    } else if bytes[next] == 0x2c {
        let more = skip_space(bytes, next + 1);
        let end = if more < bytes.len() {
            more + 1
        } else {
            more
        };
        if more < bytes.len() && bytes[more] == 0x5d {
            Some(place("trailing comma", bytes, end))
        } else {
            Some(place("trailing characters", bytes, end))
        }
    } else {
        Some(place("trailing characters", bytes, next + 1))
    }
}

/// Finds the fault of an array.
fn find_elements_fault(bytes: &[u8], at: usize, count: usize) -> (fault: Option<String>)
    requires
        at <= bytes@.len(),
        count <= 5,
    ensures
        text_opt(fault) == elements_fault(bytes@, at as nat, count as nat),
    decreases 5 - count,
{
    if count >= 5 {
        return find_closing_fault(bytes, at);
    }
    let next = skip_space(bytes, at);
    if next < bytes.len() && bytes[next] == 0x5d {
        let sentence = report_wrong_length(count, "struct FactDto with 5 elements");
        return Some(place(sentence.as_str(), bytes, next + 1));
    }
    let from = find_next(bytes, at, count == 0);
    if from >= bytes.len() || bytes[from] == 0x5d {
        return None;
    }
    match pass_field(bytes, from, count) {
        Step::Fault(report) => Some(report),
        Step::Broken => None,
        Step::Reached(end) => find_elements_fault(bytes, end, count + 1),
    }
}

/// Finds the fault of a text as the record of a fact.
pub fn find_record_fault(text: &str) -> (fault: Option<String>)
    ensures
        text_opt(fault) == record_fault(utf8(text@)),
{
    let bytes = text.as_bytes();
    let start = skip_space(bytes, 0);
    if start < bytes.len() && bytes[start] == 0x7b {
        let seen: Vec<bool> = vec![false, false, false, false, false];
        assert(seen@ =~= seq![false, false, false, false, false]);
        find_members_fault(bytes, start + 1, true, seen)
    } else if start < bytes.len() && bytes[start] == 0x5b {
        find_elements_fault(bytes, start + 1, 0)
    } else {
        match pass_value(bytes) {
            Ok((value, end)) => {
                if end <= bytes.len() {
                    let sentence = report_wrong_type(&from_value(value), "struct FactDto");
                    Some(place(sentence.as_str(), bytes, end))
                } else {
                    None
                }
            },
            Err(_) => None,
        }
    }
}

} // verus!
