//! What the line of a fact spells, which texts are read as facts, and what the digest
//! of a log covers.

use vstd::prelude::*;

use crate::fact::{fact_held, fact_parsed, fact_report, hex, line_text, log_bytes, recoverable, utf8,
    FactModel};
use crate::fact_report::{blanked, column_at, count_passed, elements_fault, field_passed, given_up,
    line_at, member_passed, members_fault, name_judged, optional_passed, past_space, placed, record_fault,
    text_passed, value_passed, Passage};
use crate::json::{member_of, names_known, JsonModel};
use crate::json_text::{json_parsed, json_printed, readable, spelled_members};
use crate::schema::number_of;
use crate::text::decimal;

verus! {

/// The line of a fact spells its number, kind, key, cause and payload, in this order
/// and under these names; a fact without a cause has null in its place.
pub proof fn law_a_line_spells_its_fact(fact: FactModel)
    ensures
        line_text(fact) == seq!['{'] + json_printed(JsonModel::Text("seq"@)) + seq![':']
            + json_printed(JsonModel::Number(decimal(fact.seq as nat))) + seq![',']
            + json_printed(JsonModel::Text("type"@)) + seq![':'] + json_printed(
            JsonModel::Text(fact.kind),
        ) + seq![','] + json_printed(JsonModel::Text("key"@)) + seq![':'] + json_printed(
            JsonModel::Text(fact.key),
        ) + seq![','] + json_printed(JsonModel::Text("cause"@)) + seq![':'] + json_printed(
            if fact.cause is Some {
                JsonModel::Text(fact.cause->Some_0)
            } else {
                JsonModel::Null
            },
        ) + seq![','] + json_printed(JsonModel::Text("payload"@)) + seq![':'] + json_printed(
            fact.payload,
        ) + seq!['}'],
{
    let all = crate::fact::fact_members(fact);
    let four = all.drop_last();
    let three = four.drop_last();
    let two = three.drop_last();
    let one = two.drop_last();
    assert(one.drop_last() =~= Seq::empty());
    assert(all.last() == all[4] && four.last() == all[3] && three.last() == all[2] && two.last()
        == all[1] && one.last() == all[0]);
    reveal_with_fuel(crate::json_text::members_text, 6);
    assert(line_text(fact) =~= seq!['{'] + json_printed(JsonModel::Text("seq"@)) + seq![':']
        + json_printed(JsonModel::Number(decimal(fact.seq as nat))) + seq![','] + json_printed(
        JsonModel::Text("type"@),
    ) + seq![':'] + json_printed(JsonModel::Text(fact.kind)) + seq![','] + json_printed(
        JsonModel::Text("key"@),
    ) + seq![':'] + json_printed(JsonModel::Text(fact.key)) + seq![','] + json_printed(
        JsonModel::Text("cause"@),
    ) + seq![':'] + json_printed(all[3].value) + seq![','] + json_printed(
        JsonModel::Text("payload"@),
    ) + seq![':'] + json_printed(fact.payload) + seq!['}']);
}

/// A value that gives a fact, where its text spelled so many members: an object with
/// the fields of a fact and no others, none of them twice, or an array of the five.
pub open spec fn gives_fact(value: JsonModel, spelled: nat, fact: FactModel) -> bool {
    match value {
        JsonModel::Object(members) => {
            &&& members.len() == spelled
            &&& forall|i: int|
                0 <= i < members.len() ==> {
                    let name = (#[trigger] members[i]).name;
                    ||| name == "seq"@
                    ||| name == "type"@
                    ||| name == "key"@
                    ||| name == "cause"@
                    ||| name == "payload"@
                }
            &&& member_of(members, "seq"@) == Some(JsonModel::Number(decimal(fact.seq as nat)))
            &&& member_of(members, "type"@) == Some(JsonModel::Text(fact.kind))
            &&& member_of(members, "key"@) == Some(JsonModel::Text(fact.key))
            &&& match fact.cause {
                Some(cause) => member_of(members, "cause"@) == Some(JsonModel::Text(cause)),
                None => member_of(members, "cause"@) is None || member_of(members, "cause"@)
                    == Some(JsonModel::Null),
            }
            &&& member_of(members, "payload"@) == Some(fact.payload)
        },
        JsonModel::Array(items) => {
            &&& items.len() == 5
            &&& items[0] == JsonModel::Number(decimal(fact.seq as nat))
            &&& items[1] == JsonModel::Text(fact.kind)
            &&& items[2] == JsonModel::Text(fact.key)
            &&& items[3] == match fact.cause {
                Some(cause) => JsonModel::Text(cause),
                None => JsonModel::Null,
            }
            &&& items[4] == fact.payload
        },
        _ => false,
    }
}

/// A number is the one that its decimal spells, and no other text spells it.
proof fn lemma_number_spelled(text: Seq<char>, n: u64)
    ensures
        number_of(text) == Some(n) <==> text == decimal(n as nat),
{
    crate::schema::lemma_number_of(n);
    if number_of(text) == Some(n) {
        let m = choose|m: u64| text == #[trigger] decimal(m as nat);
        assert(text == decimal(m as nat));
    }
}

/// A fact is held by the values that give it, and by no others.
pub proof fn law_facts_are_read_of_their_fields(value: JsonModel, spelled: nat, fact: FactModel)
    ensures
        fact_held(value, spelled) == Some(fact) <==> gives_fact(value, spelled, fact),
{
    match value {
        JsonModel::Object(members) => {
            let names = crate::fact::fact_fields();
            assert(names[0] == "seq"@ && names[1] == "type"@ && names[2] == "key"@ && names[3]
                == "cause"@ && names[4] == "payload"@);
            assert forall|name: Seq<char>| #[trigger] names.contains(name) <==> {
                ||| name == "seq"@
                ||| name == "type"@
                ||| name == "key"@
                ||| name == "cause"@
                ||| name == "payload"@
            } by {
                if names.contains(name) {
                    let i = choose|i: int| 0 <= i < names.len() && names[i] == name;
                    assert(names[i] == name);
                }
            }
            assert(names_known(members, names) <==> (forall|i: int|
                0 <= i < members.len() ==> names.contains((#[trigger] members[i]).name)));
            if let Some(JsonModel::Number(text)) = member_of(members, "seq"@) {
                lemma_number_spelled(text, fact.seq);
            }
        },
        JsonModel::Array(items) => {
            if items.len() == 5 {
                if let JsonModel::Number(text) = items[0] {
                    lemma_number_spelled(text, fact.seq);
                }
            }
        },
        _ => {},
    }
}

/// A text is read as a fact where it is JSON that gives the fact and the kind and the
/// key are not empty. Every other text is reported, and empty kinds and keys are told
/// as such.
pub proof fn law_texts_are_read_as_facts(text: Seq<char>, value: JsonModel, fact: FactModel)
    ensures
        json_parsed(text) == Ok::<JsonModel, Seq<char>>(value) && gives_fact(
            value,
            spelled_members(text),
            fact,
        ) ==> fact_parsed(text) == if fact.kind.len() > 0 && fact.key.len() > 0 {
            Ok::<FactModel, Seq<char>>(fact)
        } else {
            Err("type and key are required"@)
        },
        fact_parsed(text) == Ok::<FactModel, Seq<char>>(fact) ==> (json_parsed(text) matches Ok(
            read,
        ) && gives_fact(read, spelled_members(text), fact) && fact.kind.len() > 0
            && fact.key.len() > 0),
        json_parsed(text) is Err ==> fact_parsed(text) is Err,
{
    law_facts_are_read_of_their_fields(value, spelled_members(text), fact);
    if let Ok(read) = json_parsed(text) {
        law_facts_are_read_of_their_fields(read, spelled_members(text), fact);
    }
}

/// A text that is no fact is reported by its first fault as a record, or else by what
/// makes it no JSON.
pub proof fn law_the_first_fault_is_reported(text: Seq<char>, report: Seq<char>)
    ensures
        record_fault(utf8(text)) == Some(report) && json_parsed(text) is Err ==> fact_parsed(text)
            == Err::<FactModel, Seq<char>>(report),
        record_fault(utf8(text)) is None && json_parsed(text) == Err::<JsonModel, Seq<char>>(report)
            ==> fact_parsed(text) == Err::<FactModel, Seq<char>>(report),
        record_fault(utf8(text)) == Some(report) ==> fact_report(text) == report,
{
}

/// A fact comes back from its line where its kind and key are not empty and its
/// payload survives being printed one level deep.
pub proof fn law_which_facts_come_back(fact: FactModel)
    ensures
        recoverable(fact) <==> fact.kind.len() > 0 && fact.key.len() > 0 && readable(
            fact.payload,
            126,
        ),
{
}

/// The digest covers a log fact by fact, and of each fact its number, kind, key,
/// cause and payload in this order, with a mark behind each fact.
pub proof fn law_the_digest_covers_every_fact(facts: Seq<FactModel>, fact: FactModel)
    ensures
        log_bytes(Seq::empty()).len() == 0,
        log_bytes(facts.push(fact)) == log_bytes(facts) + utf8(decimal(fact.seq as nat)) + utf8(
            fact.kind,
        ) + utf8(fact.key) + utf8(
            if fact.cause is Some {
                fact.cause->Some_0
            } else {
                Seq::empty()
            },
        ) + utf8(json_printed(fact.payload)) + seq![0xffu8],
        utf8(fact.key) == vstd::utf8::encode_utf8(fact.key),
{
    assert(facts.push(fact).drop_last() =~= facts);
    assert(log_bytes(facts.push(fact)) =~= log_bytes(facts) + utf8(decimal(fact.seq as nat)) + utf8(
        fact.kind,
    ) + utf8(fact.key) + utf8(crate::fact::covered(fact)[3]) + utf8(json_printed(fact.payload))
        + seq![0xffu8]);
}

/// A digest is written in hexadecimal: for each byte its upper and its lower half, in
/// digits and lower-case letters.
pub proof fn law_digests_are_hexadecimal(bytes: Seq<u8>, byte: u8)
    ensures
        hex(Seq::empty()).len() == 0,
        hex(bytes.push(byte)).len() == hex(bytes).len() + 2,
        hex(bytes).is_prefix_of(hex(bytes.push(byte))),
        ({
            let (upper, lower) = (
                hex(bytes.push(byte))[hex(bytes).len() as int],
                hex(bytes.push(byte))[hex(bytes).len() as int + 1],
            );
            &&& upper == "0123456789abcdef"@[byte as int / 16]
            &&& lower == "0123456789abcdef"@[byte as int % 16]
        }),
{
    reveal_strlit("0123456789abcdef");
    assert(bytes.push(byte).drop_last() =~= bytes);
    let more = hex(bytes.push(byte));
    assert(hex(bytes) =~= more.subrange(0, hex(bytes).len() as int));
    let (u, l) = (byte / 16, byte % 16);
    assert(u < 16 && l < 16);
    assert forall|n: u8| n < 16 implies crate::fact::hex_digit(n)
        == #[trigger] "0123456789abcdef"@[n as int] by {
        assert(crate::fact::hex_digit(n) == if n < 10 {
            (48 + n) as char
        } else {
            (87 + n) as char
        });
    }
    assert("0123456789abcdef"@[u as int] == crate::fact::hex_digit(u));
    assert("0123456789abcdef"@[l as int] == crate::fact::hex_digit(l));
}

/// A place is told by its line, one more than the breaks before it, and by the bytes
/// of that line that stand before it.
pub proof fn law_places_are_counted(bytes: Seq<u8>, at: nat, sentence: Seq<char>)
    requires
        at < bytes.len(),
    ensures
        line_at(bytes, 0) == 1,
        column_at(bytes, 0) == 0,
        bytes[at as int] == 0x0a ==> line_at(bytes, at + 1) == line_at(bytes, at) + 1 && column_at(
            bytes,
            at + 1,
        ) == 0,
        bytes[at as int] != 0x0a ==> line_at(bytes, at + 1) == line_at(bytes, at) && column_at(
            bytes,
            at + 1,
        ) == column_at(bytes, at) + 1,
        placed(sentence, bytes, at) == sentence + " at line "@ + decimal(line_at(bytes, at))
            + " column "@ + decimal(column_at(bytes, at)),
{
}

/// Spaces between tokens do not count.
pub proof fn law_spaces_are_passed_over(bytes: Seq<u8>, at: nat)
    ensures
        at < bytes.len() && (bytes[at as int] == 0x20 || bytes[at as int] == 0x0a
            || bytes[at as int] == 0x09 || bytes[at as int] == 0x0d) ==> past_space(bytes, at)
            == past_space(bytes, at + 1),
        at < bytes.len() && bytes[at as int] != 0x20 && bytes[at as int] != 0x0a
            && bytes[at as int] != 0x09 && bytes[at as int] != 0x0d ==> past_space(bytes, at) == at,
        at >= bytes.len() ==> past_space(bytes, at) == at,
{
}

/// A record that ends without a field that a fact needs is told the first such field;
/// the cause is not needed.
pub proof fn law_absent_fields_are_told(bytes: Seq<u8>, at: nat, first: bool, seen: Seq<bool>)
    requires
        seen.len() == 5,
        past_space(bytes, at) < bytes.len(),
        bytes[past_space(bytes, at) as int] == 0x7d,
    ensures
        ({
            let told = |name: Seq<char>|
                Some(
                    placed(
                        "missing field `"@ + name + "`"@,
                        bytes,
                        (past_space(bytes, at) + 1) as nat,
                    ),
                );
            members_fault(bytes, at, first, seen) == if !seen[0] {
                told("seq"@)
            } else if !seen[1] {
                told("type"@)
            } else if !seen[2] {
                told("key"@)
            } else if !seen[4] {
                told("payload"@)
            } else {
                None
            }
        }),
{
}

/// A name that facts do not have is told beside those that they have, and a name that
/// stands twice is told, both where the reader of the record gave up.
pub proof fn law_wrong_names_are_told(
    bytes: Seq<u8>,
    quote: nat,
    name: Seq<char>,
    end: nat,
    seen: Seq<bool>,
)
    requires
        quote < end <= bytes.len(),
        seen.len() == 5,
    ensures
        name != "seq"@ && name != "type"@ && name != "key"@ && name != "cause"@ && name
            != "payload"@ ==> name_judged(bytes, quote, Ok((name, end)), seen).0 == Passage::Fault(
            placed(
                "unknown field `"@ + name
                    + "`, expected one of `seq`, `type`, `key`, `cause`, `payload`"@,
                bytes,
                given_up(bytes, end),
            ),
        ),
        name == "seq"@ && seen[0] ==> name_judged(bytes, quote, Ok((name, end)), seen).0
            == Passage::Fault(
            placed("duplicate field `"@ + name + "`"@, bytes, given_up(bytes, end)),
        ),
        name == "cause"@ && seen[3] ==> name_judged(bytes, quote, Ok((name, end)), seen).0
            == Passage::Fault(
            placed("duplicate field `"@ + name + "`"@, bytes, given_up(bytes, end)),
        ),
{
    crate::fact::lemma_field_names();
}

/// The values of a record are read by the type of their field: the number as a count,
/// the kind and the key as texts, the cause as a text or null; the first that cannot
/// be read is reported in the words of the reader. Before it, everything is blank but
/// for the breaks, so that the place is told right.
pub proof fn law_values_are_read_by_field(bytes: Seq<u8>, at: nat, message: Seq<char>)
    ensures
        count_passed(blanked(bytes, at)) == Err::<nat, Seq<char>>(message) ==> field_passed(
            bytes,
            at,
            0,
        ) == Passage::Fault(message),
        text_passed(blanked(bytes, at)) == Err::<(Seq<char>, nat), Seq<char>>(message)
            ==> field_passed(bytes, at, 1) == Passage::Fault(message) && field_passed(bytes, at, 2)
            == Passage::Fault(message),
        optional_passed(blanked(bytes, at)) == Err::<nat, Seq<char>>(message) ==> field_passed(
            bytes,
            at,
            3,
        ) == Passage::Fault(message),
        !(field_passed(bytes, at, 4) is Fault),
        blanked(bytes, at).len() == bytes.len(),
        forall|i: int|
            0 <= i < bytes.len() ==> #[trigger] blanked(bytes, at)[i] == if i < at && bytes[i]
                != 0x0a {
                0x20u8
            } else {
                bytes[i]
            },
{
}

/// An array that ends before its fifth element is told how many it has, and one that
/// goes on behind it is told so.
pub proof fn law_arrays_have_five_elements(bytes: Seq<u8>, at: nat, len: nat)
    ensures
        len < 5 && past_space(bytes, at) < bytes.len() && bytes[past_space(bytes, at) as int] == 0x5d
            ==> elements_fault(bytes, at, len) == Some(
            placed(
                "invalid length "@ + decimal(len) + ", expected "@
                    + "struct FactDto with 5 elements"@,
                bytes,
                (past_space(bytes, at) + 1) as nat,
            ),
        ),
        past_space(bytes, at) < bytes.len() && bytes[past_space(bytes, at) as int] == 0x5d
            ==> elements_fault(bytes, at, 5) is None,
        past_space(bytes, at) < bytes.len() && bytes[past_space(bytes, at) as int] == 0x2c
            ==> elements_fault(bytes, at, 5) is Some,
{
}

/// A value that was read is passed over; where the reader of a payload stands behind
/// it, the same bytes between brackets have to be a value too, and else nothing is
/// reached and nothing is told.
pub proof fn law_values_that_are_read_are_passed_over(
    bytes: Seq<u8>,
    at: nat,
    end: nat,
    text: Seq<char>,
    value: JsonModel,
)
    ensures
        at < end <= bytes.len() && count_passed(blanked(bytes, at)) == Ok::<nat, Seq<char>>(end)
            ==> field_passed(bytes, at, 0) == Passage::Reached(end),
        at < end <= bytes.len() && text_passed(blanked(bytes, at)) == Ok::<
            (Seq<char>, nat),
            Seq<char>,
        >((text, end)) ==> field_passed(bytes, at, 1) == Passage::Reached(end) && field_passed(
            bytes,
            at,
            2,
        ) == Passage::Reached(end),
        at < end <= bytes.len() && optional_passed(blanked(bytes, at)) == Ok::<nat, Seq<char>>(end)
            ==> field_passed(bytes, at, 3) == Passage::Reached(end),
        at < end <= bytes.len() && value_passed(blanked(bytes, at)) == Ok::<
            (JsonModel, nat),
            Seq<char>,
        >((value, end)) ==> field_passed(bytes, at, 4) == if value_passed(
            seq!['[' as u8] + bytes.subrange(at as int, end as int) + seq![']' as u8],
        ) is Ok {
            Passage::Reached(end)
        } else {
            Passage::Broken
        },
        value_passed(blanked(bytes, at)) is Err ==> field_passed(bytes, at, 4) is Broken,
{
}

/// Behind its fifth element an array ends. A comma before the bracket is told, and so
/// is anything else, at the place behind the byte in question; what a text leaves open
/// is no fault of the record.
pub proof fn law_nothing_follows_the_fifth_element(bytes: Seq<u8>, at: nat, next: nat, more: nat)
    requires
        next == past_space(bytes, at),
        more == past_space(bytes, next + 1),
    ensures
        next >= bytes.len() ==> elements_fault(bytes, at, 5) is None,
        next < bytes.len() && bytes[next as int] == ',' as u8 && more < bytes.len()
            && bytes[more as int] == ']' as u8 ==> elements_fault(bytes, at, 5) == Some(
            placed("trailing comma"@, bytes, more + 1),
        ),
        next < bytes.len() && bytes[next as int] == ',' as u8 && more < bytes.len()
            && bytes[more as int] != ']' as u8 ==> elements_fault(bytes, at, 5) == Some(
            placed("trailing characters"@, bytes, more + 1),
        ),
        next < bytes.len() && bytes[next as int] == ',' as u8 && more >= bytes.len()
            ==> elements_fault(bytes, at, 5) == Some(
            placed("trailing characters"@, bytes, bytes.len()),
        ),
        next < bytes.len() && bytes[next as int] != ',' as u8 && bytes[next as int] != ']' as u8
            ==> elements_fault(bytes, at, 5) == Some(
            placed("trailing characters"@, bytes, next + 1),
        ),
{
}

/// An array is followed element by element, the fields in their order: the fault of an
/// element is the fault of the array, and behind an element that could be read the
/// rest is followed. A comma stands before each but the first.
pub proof fn law_arrays_are_followed_element_by_element(
    bytes: Seq<u8>,
    at: nat,
    from: nat,
    count: nat,
    report: Seq<char>,
    end: nat,
)
    requires
        count < 5,
        from < bytes.len(),
        bytes[from as int] != ']' as u8,
        count == 0 ==> from == past_space(bytes, at),
        count > 0 ==> past_space(bytes, at) < bytes.len() && bytes[past_space(bytes, at) as int]
            == ',' as u8 && from == past_space(bytes, past_space(bytes, at) + 1),
    ensures
        field_passed(bytes, from, count) == Passage::Fault(report) ==> elements_fault(
            bytes,
            at,
            count,
        ) == Some(report),
        field_passed(bytes, from, count) is Broken ==> elements_fault(bytes, at, count) is None,
        field_passed(bytes, from, count) == Passage::Reached(end) ==> elements_fault(
            bytes,
            at,
            count,
        ) == elements_fault(bytes, end, count + 1),
{
}

/// A text that starts with neither brace nor bracket is told to be no record, where
/// it is a value.
pub proof fn law_values_are_no_records(bytes: Seq<u8>, value: JsonModel, end: nat)
    requires
        past_space(bytes, 0) < bytes.len(),
        bytes[past_space(bytes, 0) as int] != 0x7b,
        bytes[past_space(bytes, 0) as int] != 0x5b,
        value_passed(bytes) == Ok::<(JsonModel, nat), Seq<char>>((value, end)),
        end <= bytes.len(),
    ensures
        record_fault(bytes) == Some(
            placed(
                "invalid type: "@ + crate::schema::unexpected(value) + ", expected "@
                    + "struct FactDto"@,
                bytes,
                end,
            ),
        ),
{
}

/// An object is followed member by member: the fault of a member is the fault of the
/// object, and behind a member that could be read its field has been there and the
/// rest is followed.
pub proof fn law_objects_are_followed_member_by_member(
    bytes: Seq<u8>,
    at: nat,
    quote: nat,
    seen: Seq<bool>,
    report: Seq<char>,
    end: nat,
    field: nat,
)
    requires
        past_space(bytes, at) == quote,
        quote < bytes.len(),
        bytes[quote as int] == 0x22,
    ensures
        member_passed(bytes, quote, seen).0 == Passage::Fault(report) ==> members_fault(
            bytes,
            at,
            true,
            seen,
        ) == Some(report),
        member_passed(bytes, quote, seen) == (Passage::Reached(end), field) && at < end
            <= bytes.len() ==> members_fault(bytes, at, true, seen) == members_fault(
            bytes,
            end,
            false,
            seen.update(field as int, true),
        ),
{
}

/// Behind the first member a comma has to stand before the next name.
pub proof fn law_members_stand_behind_commas(
    bytes: Seq<u8>,
    at: nat,
    quote: nat,
    seen: Seq<bool>,
    report: Seq<char>,
    end: nat,
    field: nat,
)
    requires
        past_space(bytes, at) < bytes.len(),
        bytes[past_space(bytes, at) as int] == 0x2c,
        past_space(bytes, past_space(bytes, at) + 1) == quote,
        quote < bytes.len(),
        bytes[quote as int] == 0x22,
    ensures
        member_passed(bytes, quote, seen).0 == Passage::Fault(report) ==> members_fault(
            bytes,
            at,
            false,
            seen,
        ) == Some(report),
        member_passed(bytes, quote, seen) == (Passage::Reached(end), field) && at < end
            <= bytes.len() ==> members_fault(bytes, at, false, seen) == members_fault(
            bytes,
            end,
            false,
            seen.update(field as int, true),
        ),
{
}

/// A member is its name, a colon and the value of its field.
pub proof fn law_a_member_is_a_name_and_a_value(
    bytes: Seq<u8>,
    quote: nat,
    name: Seq<char>,
    end: nat,
    seen: Seq<bool>,
)
    requires
        seen.len() == 5,
        text_passed(blanked(bytes, quote)) == Ok::<(Seq<char>, nat), Seq<char>>((name, end)),
        quote < end <= bytes.len(),
        past_space(bytes, end) < bytes.len(),
        bytes[past_space(bytes, end) as int] == 0x3a,
    ensures
        ({
            let value = (past_space(bytes, end) + 1) as nat;
            &&& name == "seq"@ && !seen[0] && field_passed(bytes, value, 0) is Reached
                ==> member_passed(bytes, quote, seen) == (field_passed(bytes, value, 0), 0nat)
            &&& name == "type"@ && !seen[1] && field_passed(bytes, value, 1) is Reached
                ==> member_passed(bytes, quote, seen) == (field_passed(bytes, value, 1), 1nat)
            &&& name == "key"@ && !seen[2] && field_passed(bytes, value, 2) is Reached
                ==> member_passed(bytes, quote, seen) == (field_passed(bytes, value, 2), 2nat)
            &&& name == "cause"@ && !seen[3] && field_passed(bytes, value, 3) is Reached
                ==> member_passed(bytes, quote, seen) == (field_passed(bytes, value, 3), 3nat)
            &&& name == "payload"@ && !seen[4] && field_passed(bytes, value, 4) is Reached
                ==> member_passed(bytes, quote, seen) == (field_passed(bytes, value, 4), 4nat)
        }),
{
    crate::fact::lemma_field_names();
}

/// The reader of an object gives up behind spaces, and behind the brace that closes
/// the object if it comes next.
pub proof fn law_where_a_reader_gives_up(bytes: Seq<u8>, at: nat)
    ensures
        past_space(bytes, at) < bytes.len() && bytes[past_space(bytes, at) as int] == 0x7d
            ==> given_up(bytes, at) == past_space(bytes, at) + 1,
        !(past_space(bytes, at) < bytes.len() && bytes[past_space(bytes, at) as int] == 0x7d)
            ==> given_up(bytes, at) == past_space(bytes, at),
{
}

/// A record starts with its brace or bracket, and all its fields are still to come.
pub proof fn law_records_are_followed_from_their_start(bytes: Seq<u8>)
    requires
        past_space(bytes, 0) < bytes.len(),
    ensures
        bytes[past_space(bytes, 0) as int] == 0x7b ==> record_fault(bytes) == members_fault(
            bytes,
            past_space(bytes, 0) + 1,
            true,
            seq![false, false, false, false, false],
        ),
        bytes[past_space(bytes, 0) as int] == 0x5b ==> record_fault(bytes) == elements_fault(
            bytes,
            past_space(bytes, 0) + 1,
            0,
        ),
{
}

} // verus!
