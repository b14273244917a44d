//! What payloads have to hold to be read, and what is read of them, told over the
//! members of objects and the elements of arrays.

use vstd::prelude::*;

use crate::error::debug_text;
use crate::json::{ascending, has_member, lemma_member_at, member_of, JsonModel, MemberModel};
use crate::json_text::readable;
use crate::payload::{confirmation_payload, decision_payload, law_decision_round_trip,
    spells_decision, summary_payload, survives, text_payload,
    tool_call_payload, tool_result_payload, ConfirmationModel, DecisionModel, ToolCallModel,
    ToolResultModel};
use crate::schema::{first_no_text, is_floating, lemma_all_texts, unexpected, wrong_length,
    wrong_type};
use crate::text::decimal;

verus! {

/// A name gives the value of the one member that has it, and none where no member
/// has it.
pub proof fn law_a_name_gives_its_member(members: Seq<MemberModel>, name: Seq<char>, at: int)
    requires
        ascending(members),
    ensures
        0 <= at < members.len() ==> member_of(members, members[at].name) == Some(members[at].value),
        (forall|i: int| 0 <= i < members.len() ==> (#[trigger] members[i]).name != name)
            ==> member_of(members, name) is None,
        member_of(members, name) matches Some(value) ==> exists|i: int|
            0 <= i < members.len() && (#[trigger] members[i]).name == name && members[i].value
                == value,
{
    if 0 <= at < members.len() {
        lemma_member_at(members, at);
    }
    if has_member(members, name) {
        let i = choose|i: int| 0 <= i < members.len() && (#[trigger] members[i]).name == name;
        assert(members[i].name == name);
    }
}

/// A slot that gives this optional text: none where it is absent or null.
pub open spec fn gives(slot: Option<JsonModel>, text: Option<Seq<char>>) -> bool {
    match slot {
        None => text is None,
        Some(JsonModel::Null) => text is None,
        Some(JsonModel::Text(given)) => text == Some(given),
        Some(_) => false,
    }
}

/// A value of another shape than a record.
pub open spec fn no_record(value: JsonModel) -> bool {
    !(value is Object) && !(value is Array)
}

/// The text of a message or an answer is what the record gives as its text, and a
/// record without a text gives none.
pub proof fn law_texts_are_read(value: JsonModel, text: Seq<char>)
    ensures
        value matches JsonModel::Object(members) ==> (text_payload(value) == Ok::<
            Seq<char>,
            Seq<char>,
        >(text) <==> member_of(members, "text"@) == Some(JsonModel::Text(text))),
        value matches JsonModel::Array(items) ==> (text_payload(value) == Ok::<
            Seq<char>,
            Seq<char>,
        >(text) <==> items.len() == 1 && items[0] == JsonModel::Text(text)),
        no_record(value) ==> text_payload(value) is Err,
{
}

/// A summary is what the record gives as its summary.
pub proof fn law_summaries_are_read(value: JsonModel, summary: Seq<char>)
    ensures
        value matches JsonModel::Object(members) ==> (summary_payload(value) == Ok::<
            Seq<char>,
            Seq<char>,
        >(summary) <==> member_of(members, "summary"@) == Some(JsonModel::Text(summary))),
        value matches JsonModel::Array(items) ==> (summary_payload(value) == Ok::<
            Seq<char>,
            Seq<char>,
        >(summary) <==> items.len() == 1 && items[0] == JsonModel::Text(summary)),
        no_record(value) ==> summary_payload(value) is Err,
{
}

/// An answer to a confirmation is the id and the approval that the record gives.
pub proof fn law_confirmations_are_read(value: JsonModel, answer: ConfirmationModel)
    ensures
        value matches JsonModel::Object(members) ==> (confirmation_payload(value) == Ok::<
            ConfirmationModel,
            Seq<char>,
        >(answer) <==> member_of(members, "tool_call_id"@) == Some(
            JsonModel::Text(answer.tool_call_id),
        ) && member_of(members, "approved"@) == Some(JsonModel::Bool(answer.approved))),
        value matches JsonModel::Array(items) ==> (confirmation_payload(value) == Ok::<
            ConfirmationModel,
            Seq<char>,
        >(answer) <==> items.len() == 2 && items[0] == JsonModel::Text(answer.tool_call_id)
            && items[1] == JsonModel::Bool(answer.approved)),
        no_record(value) ==> confirmation_payload(value) is Err,
{
}

/// The result of a tool is the success and the output that the record gives.
pub proof fn law_results_are_read(value: JsonModel, result: ToolResultModel)
    ensures
        value matches JsonModel::Object(members) ==> (tool_result_payload(value) == Ok::<
            ToolResultModel,
            Seq<char>,
        >(result) <==> member_of(members, "ok"@) == Some(JsonModel::Bool(result.ok)) && member_of(
            members,
            "output"@,
        ) == Some(JsonModel::Text(result.output))),
        value matches JsonModel::Array(items) ==> (tool_result_payload(value) == Ok::<
            ToolResultModel,
            Seq<char>,
        >(result) <==> items.len() == 2 && items[0] == JsonModel::Bool(result.ok) && items[1]
            == JsonModel::Text(result.output)),
        no_record(value) ==> tool_result_payload(value) is Err,
{
}

/// A record that gives a tool call: its id, its name, its arguments and whether it
/// needs a confirmation, and the prose and the reasoning where they are there.
pub open spec fn gives_call(value: JsonModel, call: ToolCallModel) -> bool {
    match value {
        JsonModel::Object(members) => {
            &&& member_of(members, "id"@) == Some(JsonModel::Text(call.id))
            &&& member_of(members, "name"@) == Some(JsonModel::Text(call.name))
            &&& member_of(members, "args"@) == Some(call.args)
            &&& member_of(members, "needs_confirmation"@) == Some(
                JsonModel::Bool(call.needs_confirmation),
            )
            &&& gives(member_of(members, "text"@), call.text)
            &&& gives(member_of(members, "reasoning"@), call.reasoning)
        },
        JsonModel::Array(items) => {
            &&& 4 <= items.len() <= 6
            &&& items[0] == JsonModel::Text(call.id)
            &&& items[1] == JsonModel::Text(call.name)
            &&& items[2] == call.args
            &&& items[3] == JsonModel::Bool(call.needs_confirmation)
            &&& gives(
                if items.len() > 4 {
                    Some(items[4])
                } else {
                    None
                },
                call.text,
            )
            &&& gives(
                if items.len() > 5 {
                    Some(items[5])
                } else {
                    None
                },
                call.reasoning,
            )
        },
        _ => false,
    }
}

/// A tool call is read of the records that give it, and of no others.
pub proof fn law_calls_are_read(value: JsonModel, call: ToolCallModel)
    ensures
        tool_call_payload(value) == Ok::<ToolCallModel, Seq<char>>(call) <==> gives_call(
            value,
            call,
        ),
{
    match value {
        JsonModel::Object(members) => {
            assert(gives_call(value, call) ==> tool_call_payload(value) == Ok::<
                ToolCallModel,
                Seq<char>,
            >(call));
        },
        _ => {},
    }
}

/// The elements that are these texts.
pub open spec fn are_texts(items: Seq<JsonModel>, texts: Seq<Seq<char>>) -> bool {
    &&& items.len() == texts.len()
    &&& forall|i: int| 0 <= i < items.len() ==> #[trigger] items[i] == JsonModel::Text(texts[i])
}

/// A slot that gives these texts: none where it is absent.
pub open spec fn gives_texts(slot: Option<JsonModel>, texts: Seq<Seq<char>>) -> bool {
    match slot {
        None => texts.len() == 0,
        Some(JsonModel::Array(items)) => are_texts(items, texts),
        Some(_) => false,
    }
}

/// An element that is no text is found.
proof fn lemma_no_text_is_found(items: Seq<JsonModel>, at: int)
    requires
        0 <= at < items.len(),
        !(items[at] is Text),
    ensures
        first_no_text(items) is Some,
    decreases items.len(),
{
    if at < items.len() - 1 {
        assert(items.drop_last()[at] == items[at]);
        lemma_no_text_is_found(items.drop_last(), at);
    }
}

/// The list of texts of a slot is read where the slot gives it.
proof fn lemma_texts_given(slot: Option<JsonModel>, texts: Seq<Seq<char>>)
    ensures
        crate::schema::member_texts(slot) == Ok::<Seq<Seq<char>>, Seq<char>>(texts) <==> gives_texts(
            slot,
            texts,
        ),
{
    match slot {
        None => {
            assert(texts.len() == 0 ==> texts =~= Seq::empty());
        },
        Some(JsonModel::Array(items)) => {
            let read = items.map_values(|item: JsonModel| item->Text_0);
            if gives_texts(slot, texts) {
                lemma_all_texts(items);
                assert(read =~= texts);
            } else if first_no_text(items) is None {
                if texts == read {
                    assert forall|i: int| 0 <= i < items.len() implies #[trigger] items[i]
                        == JsonModel::Text(texts[i]) by {
                        if !(items[i] is Text) {
                            lemma_no_text_is_found(items, i);
                        }
                    }
                }
            }
        },
        Some(_) => {},
    }
}

/// A record that gives a decision: its kind and the fields of that kind.
pub open spec fn gives_decision(value: JsonModel, decision: DecisionModel) -> bool {
    match value {
        JsonModel::Object(members) => match decision {
            DecisionModel::Text { text } => {
                &&& member_of(members, "kind"@) == Some(JsonModel::Text("text"@))
                &&& member_of(members, "text"@) == Some(JsonModel::Text(text))
            },
            DecisionModel::Tool { call } => {
                &&& member_of(members, "kind"@) == Some(JsonModel::Text("tool"@))
                &&& member_of(members, "call"@) matches Some(given) && gives_call(given, call)
            },
            DecisionModel::Question { question_id, question, allow_free_text, options } => {
                &&& member_of(members, "kind"@) == Some(JsonModel::Text("question"@))
                &&& member_of(members, "question_id"@) == Some(JsonModel::Text(question_id))
                &&& member_of(members, "question"@) == Some(JsonModel::Text(question))
                &&& member_of(members, "allow_free_text"@) == Some(
                    JsonModel::Bool(allow_free_text),
                )
                &&& gives_texts(member_of(members, "options"@), options)
            },
        },
        JsonModel::Array(items) => match decision {
            DecisionModel::Text { text } => {
                &&& items.len() == 2
                &&& items[0] == JsonModel::Text("text"@)
                &&& items[1] == JsonModel::Text(text)
            },
            DecisionModel::Tool { call } => {
                &&& items.len() == 2
                &&& items[0] == JsonModel::Text("tool"@)
                &&& gives_call(items[1], call)
            },
            DecisionModel::Question { question_id, question, allow_free_text, options } => {
                &&& 4 <= items.len() <= 5
                &&& items[0] == JsonModel::Text("question"@)
                &&& items[1] == JsonModel::Text(question_id)
                &&& items[2] == JsonModel::Text(question)
                &&& items[3] == JsonModel::Bool(allow_free_text)
                &&& gives_texts(
                    if items.len() > 4 {
                        Some(items[4])
                    } else {
                        None
                    },
                    options,
                )
            },
        },
        _ => false,
    }
}

/// The three kinds of decisions have different names.
proof fn lemma_kinds_differ()
    ensures
        "text"@ != "tool"@,
        "text"@ != "question"@,
        "tool"@ != "question"@,
{
    reveal_strlit("text");
    reveal_strlit("tool");
    reveal_strlit("question");
    assert("text"@[1] == 'e');
    assert("tool"@[1] == 'o');
    assert("text"@.len() == 4 && "tool"@.len() == 4 && "question"@.len() == 8);
}

/// A decision is read of the records that give it, and of no others.
pub proof fn law_decisions_are_read(value: JsonModel, decision: DecisionModel)
    ensures
        decision_payload(value) == Ok::<DecisionModel, Seq<char>>(decision) <==> gives_decision(
            value,
            decision,
        ),
{
    lemma_kinds_differ();
    match value {
        JsonModel::Object(members) => {
            if let Some(given) = member_of(members, "call"@) {
                if let DecisionModel::Tool { call } = decision {
                    law_calls_are_read(given, call);
                }
            }
            if let DecisionModel::Question { options, .. } = decision {
                lemma_texts_given(member_of(members, "options"@), options);
            }
        },
        JsonModel::Array(items) => {
            if items.len() > 0 {
                let rest = items.skip(1);
                assert(forall|i: int| 0 <= i < rest.len() ==> #[trigger] rest[i] == items[i + 1]);
                if items.len() > 1 {
                    assert(rest[0] == items[1]);
                    if let DecisionModel::Tool { call } = decision {
                        law_calls_are_read(items[1], call);
                    }
                }
                if let DecisionModel::Question { options, .. } = decision {
                    lemma_texts_given(crate::schema::element_opt(rest, 3), options);
                    if items.len() >= 4 {
                        assert(rest[1] == items[2] && rest[2] == items[3]);
                    }
                    if items.len() >= 5 {
                        assert(rest[3] == items[4]);
                    }
                }
            }
        },
        _ => {},
    }
}

/// A field that is absent is named, and a value of the wrong type is told in words
/// beside what was expected.
pub proof fn law_reports_name_the_fault(members: Seq<MemberModel>, value: JsonModel)
    ensures
        member_of(members, "text"@) is None ==> text_payload(JsonModel::Object(members)) == Err::<
            Seq<char>,
            Seq<char>,
        >("missing field `"@ + "text"@ + "`"@),
        member_of(members, "summary"@) is None ==> summary_payload(JsonModel::Object(members))
            == Err::<Seq<char>, Seq<char>>("missing field `"@ + "summary"@ + "`"@),
        member_of(members, "kind"@) is None ==> decision_payload(JsonModel::Object(members))
            == Err::<DecisionModel, Seq<char>>("missing field `"@ + "kind"@ + "`"@),
        member_of(members, "text"@) == Some(value) && !(value is Text) ==> text_payload(
            JsonModel::Object(members),
        ) == Err::<Seq<char>, Seq<char>>(
            "invalid type: "@ + unexpected(value) + ", expected "@ + "a string"@,
        ),
        member_of(members, "approved"@) == Some(value) && !(value is Bool) ==> confirmation_payload(
            JsonModel::Object(members),
        ) == Err::<ConfirmationModel, Seq<char>>(
            "invalid type: "@ + unexpected(value) + ", expected "@ + "a boolean"@,
        ),
        member_of(members, "ok"@) == Some(value) && !(value is Bool) ==> tool_result_payload(
            JsonModel::Object(members),
        ) == Err::<ToolResultModel, Seq<char>>(
            "invalid type: "@ + unexpected(value) + ", expected "@ + "a boolean"@,
        ),
{
}

/// A kind of decision that is not known is named beside the known ones.
pub proof fn law_unknown_kinds_are_named(members: Seq<MemberModel>, kind: Seq<char>)
    requires
        member_of(members, "kind"@) == Some(JsonModel::Text(kind)),
        kind != "text"@,
        kind != "tool"@,
        kind != "question"@,
    ensures
        decision_payload(JsonModel::Object(members)) == Err::<DecisionModel, Seq<char>>(
            "unknown variant `"@ + kind + "`, expected one of `text`, `tool`, `question`"@,
        ),
{
}

/// The words for a value say what it is.
pub proof fn law_values_are_worded(text: Seq<char>, items: Seq<JsonModel>, members: Seq<MemberModel>)
    ensures
        unexpected(JsonModel::Null) == "null"@,
        unexpected(JsonModel::Bool(true)) == "boolean `true`"@,
        unexpected(JsonModel::Bool(false)) == "boolean `false`"@,
        unexpected(JsonModel::Text(text)) == "string "@ + debug_text(text),
        unexpected(JsonModel::Array(items)) == "sequence"@,
        unexpected(JsonModel::Object(members)) == "map"@,
        !text.contains('.') && !text.contains('e') ==> unexpected(JsonModel::Number(text))
            == "integer `"@ + text + "`"@,
        text.contains('.') || text.contains('e') ==> unexpected(JsonModel::Number(text))
            == "floating point `"@ + text + "`"@,
{
    if is_floating(text) {
        let i = choose|i: int|
            0 <= i < text.len() && ((#[trigger] text[i]) == '.' || text[i] == 'e');
        assert(text.contains(text[i]));
    }
}

/// A number of elements that does not fit is told, and so is a value that is no
/// record.
pub proof fn law_shapes_are_told(value: JsonModel, len: nat, expected: Seq<char>)
    ensures
        wrong_length(len, expected) == "invalid length "@ + decimal(len) + ", expected "@ + expected,
        wrong_type(value, expected) == "invalid type: "@ + unexpected(value) + ", expected "@
            + expected,
        no_record(value) ==> text_payload(value) == Err::<Seq<char>, Seq<char>>(
            wrong_type(value, "struct TextPayload"@),
        ),
        no_record(value) ==> summary_payload(value) == Err::<Seq<char>, Seq<char>>(
            wrong_type(value, "struct SummaryPayload"@),
        ),
        no_record(value) ==> confirmation_payload(value) == Err::<ConfirmationModel, Seq<char>>(
            wrong_type(value, "struct ConfirmationPayload"@),
        ),
        no_record(value) ==> tool_result_payload(value) == Err::<ToolResultModel, Seq<char>>(
            wrong_type(value, "struct ToolResultPayload"@),
        ),
        no_record(value) ==> decision_payload(value) == Err::<DecisionModel, Seq<char>>(
            wrong_type(value, "internally tagged enum ModelDecision"@),
        ),
{
}

/// A decision is written with its kind and its fields and with nothing else, and a
/// tool call without the prose and the reasoning that are not there.
pub proof fn law_decisions_are_written_whole(value: JsonModel, decision: DecisionModel)
    requires
        spells_decision(value, decision),
    ensures
        gives_decision(value, decision),
        value matches JsonModel::Object(members) && members.len() == match decision {
            DecisionModel::Text { .. } => 2,
            DecisionModel::Tool { .. } => 2,
            DecisionModel::Question { .. } => 5nat,
        },
        decision matches DecisionModel::Tool { call } ==> (member_of(
            value->Object_0,
            "call"@,
        ) matches Some(JsonModel::Object(held)) && held.len() == 4 + (if call.text is Some {
            1nat
        } else {
            0nat
        }) + (if call.reasoning is Some {
            1nat
        } else {
            0nat
        })),
{
    law_decision_round_trip(value, decision);
    law_decisions_are_read(value, decision);
}

/// Words and questions always survive being written, and a tool call does where its
/// arguments do.
pub proof fn law_which_decisions_survive(
    text: Seq<char>,
    question: Seq<char>,
    flag: bool,
    options: Seq<Seq<char>>,
    call: ToolCallModel,
)
    ensures
        survives(DecisionModel::Text { text }),
        survives(
            DecisionModel::Question {
                question_id: text,
                question,
                allow_free_text: flag,
                options,
            },
        ),
        readable(call.args, 124) ==> survives(DecisionModel::Tool { call }),
{
}

/// What is wrong with an answer to a confirmation is told in this order: an approval
/// of the wrong type, an id of the wrong type, an absent id, an absent approval.
pub proof fn law_faults_of_answers_are_told(members: Seq<MemberModel>)
    ensures
        ({
            let report = confirmation_payload(JsonModel::Object(members));
            let (id, approved) = (
                member_of(members, "tool_call_id"@),
                member_of(members, "approved"@),
            );
            &&& approved is Some && !(approved->Some_0 is Bool) ==> report == Err::<
                ConfirmationModel,
                Seq<char>,
            >(wrong_type(approved->Some_0, "a boolean"@))
            &&& (approved is None || approved->Some_0 is Bool) && id is Some && !(
            id->Some_0 is Text) ==> report == Err::<ConfirmationModel, Seq<char>>(
                wrong_type(id->Some_0, "a string"@),
            )
            &&& (approved is None || approved->Some_0 is Bool) && id is None ==> report == Err::<
                ConfirmationModel,
                Seq<char>,
            >("missing field `"@ + "tool_call_id"@ + "`"@)
            &&& approved is None && id is Some && id->Some_0 is Text ==> report == Err::<
                ConfirmationModel,
                Seq<char>,
            >("missing field `"@ + "approved"@ + "`"@)
        }),
{
}

/// What is wrong with the result of a tool is told in this order: a success of the
/// wrong type, an output of the wrong type, an absent success, an absent output.
pub proof fn law_faults_of_results_are_told(members: Seq<MemberModel>)
    ensures
        ({
            let report = tool_result_payload(JsonModel::Object(members));
            let (ok, output) = (member_of(members, "ok"@), member_of(members, "output"@));
            &&& ok is Some && !(ok->Some_0 is Bool) ==> report == Err::<
                ToolResultModel,
                Seq<char>,
            >(wrong_type(ok->Some_0, "a boolean"@))
            &&& (ok is None || ok->Some_0 is Bool) && output is Some && !(
            output->Some_0 is Text) ==> report == Err::<ToolResultModel, Seq<char>>(
                wrong_type(output->Some_0, "a string"@),
            )
            &&& ok is None && (output is None || output->Some_0 is Text) ==> report == Err::<
                ToolResultModel,
                Seq<char>,
            >("missing field `"@ + "ok"@ + "`"@)
            &&& ok is Some && ok->Some_0 is Bool && output is None ==> report == Err::<
                ToolResultModel,
                Seq<char>,
            >("missing field `"@ + "output"@ + "`"@)
        }),
{
}

/// What is wrong with a tool call is told in the order of the names, before what is
/// absent is told in the order of the fields.
pub proof fn law_faults_of_calls_are_told(members: Seq<MemberModel>)
    ensures
        ({
            let report = tool_call_payload(JsonModel::Object(members));
            let slot = |name: Seq<char>| member_of(members, name);
            let no_text = |name: Seq<char>| slot(name) is Some && !(slot(name)->Some_0 is Text);
            let no_flag = |name: Seq<char>| slot(name) is Some && !(slot(name)->Some_0 is Bool);
            let no_option = |name: Seq<char>|
                slot(name) is Some && !(slot(name)->Some_0 is Text) && !(slot(name)->Some_0 is Null);
            let told = |name: Seq<char>, expected: Seq<char>|
                Err::<ToolCallModel, Seq<char>>(wrong_type(slot(name)->Some_0, expected));
            let absent = |name: Seq<char>|
                Err::<ToolCallModel, Seq<char>>("missing field `"@ + name + "`"@);
            if no_text("id"@) {
                report == told("id"@, "a string"@)
            } else if no_text("name"@) {
                report == told("name"@, "a string"@)
            } else if no_flag("needs_confirmation"@) {
                report == told("needs_confirmation"@, "a boolean"@)
            } else if no_option("reasoning"@) {
                report == told("reasoning"@, "a string"@)
            } else if no_option("text"@) {
                report == told("text"@, "a string"@)
            } else if slot("id"@) is None {
                report == absent("id"@)
            } else if slot("name"@) is None {
                report == absent("name"@)
            } else if slot("args"@) is None {
                report == absent("args"@)
            } else if slot("needs_confirmation"@) is None {
                report == absent("needs_confirmation"@)
            } else {
                report is Ok
            }
        }),
{
}

/// What is wrong with a question is told in the order of the names, before what is
/// absent is told in the order of the fields. Options may be absent.
pub proof fn law_faults_of_questions_are_told(members: Seq<MemberModel>)
    requires
        member_of(members, "kind"@) == Some(JsonModel::Text("question"@)),
        member_of(members, "options"@) is None,
    ensures
        ({
            let report = decision_payload(JsonModel::Object(members));
            let slot = |name: Seq<char>| member_of(members, name);
            let no_text = |name: Seq<char>| slot(name) is Some && !(slot(name)->Some_0 is Text);
            let no_flag = |name: Seq<char>| slot(name) is Some && !(slot(name)->Some_0 is Bool);
            let told = |name: Seq<char>, expected: Seq<char>|
                Err::<DecisionModel, Seq<char>>(wrong_type(slot(name)->Some_0, expected));
            let absent = |name: Seq<char>|
                Err::<DecisionModel, Seq<char>>("missing field `"@ + name + "`"@);
            if no_flag("allow_free_text"@) {
                report == told("allow_free_text"@, "a boolean"@)
            } else if no_text("question"@) {
                report == told("question"@, "a string"@)
            } else if no_text("question_id"@) {
                report == told("question_id"@, "a string"@)
            } else if slot("question_id"@) is None {
                report == absent("question_id"@)
            } else if slot("question"@) is None {
                report == absent("question"@)
            } else if slot("allow_free_text"@) is None {
                report == absent("allow_free_text"@)
            } else {
                report is Ok
            }
        }),
{
    lemma_kinds_differ();
}

/// A decision for a tool without a call is told so, and what is wrong with its call is
/// what is wrong with the decision.
pub proof fn law_faults_of_decisions_are_told(members: Seq<MemberModel>, report: Seq<char>)
    ensures
        member_of(members, "kind"@) == Some(JsonModel::Text("tool"@)) && member_of(
            members,
            "call"@,
        ) is None ==> decision_payload(JsonModel::Object(members)) == Err::<
            DecisionModel,
            Seq<char>,
        >("missing field `"@ + "call"@ + "`"@),
        member_of(members, "kind"@) == Some(JsonModel::Text("tool"@)) && (member_of(
            members,
            "call"@,
        ) matches Some(given) && tool_call_payload(given) == Err::<ToolCallModel, Seq<char>>(report))
            ==> decision_payload(JsonModel::Object(members)) == Err::<DecisionModel, Seq<char>>(
            report,
        ),
        member_of(members, "kind"@) == Some(JsonModel::Text("text"@)) && member_of(
            members,
            "text"@,
        ) is None ==> decision_payload(JsonModel::Object(members)) == Err::<
            DecisionModel,
            Seq<char>,
        >("missing field `"@ + "text"@ + "`"@),
        member_of(members, "kind"@) matches Some(kind) ==> (!(kind is Text) ==> decision_payload(
            JsonModel::Object(members),
        ) == Err::<DecisionModel, Seq<char>>(wrong_type(kind, "variant identifier"@))),
        decision_payload(JsonModel::Array(Seq::empty())) == Err::<DecisionModel, Seq<char>>(
            "missing field `"@ + "kind"@ + "`"@,
        ),
{
    lemma_kinds_differ();
}

/// An array that is too short is told its length and the record that was expected,
/// and one that is too long is told its length.
pub proof fn law_lengths_of_records_are_told(items: Seq<JsonModel>)
    ensures
        items.len() == 0 ==> text_payload(JsonModel::Array(items)) == Err::<Seq<char>, Seq<char>>(
            wrong_length(0, "struct TextPayload"@ + " with 1 element"@),
        ),
        items.len() == 0 ==> summary_payload(JsonModel::Array(items)) == Err::<
            Seq<char>,
            Seq<char>,
        >(wrong_length(0, "struct SummaryPayload"@ + " with 1 element"@)),
        items.len() > 1 && items[0] is Text ==> text_payload(JsonModel::Array(items)) == Err::<
            Seq<char>,
            Seq<char>,
        >(wrong_length(items.len(), "fewer elements in array"@)),
        items.len() == 1 && items[0] is Text ==> confirmation_payload(JsonModel::Array(items))
            == Err::<ConfirmationModel, Seq<char>>(
            wrong_length(1, "struct ConfirmationPayload with 2 elements"@),
        ),
        items.len() == 1 && items[0] is Bool ==> tool_result_payload(JsonModel::Array(items))
            == Err::<ToolResultModel, Seq<char>>(
            wrong_length(1, "struct ToolResultPayload with 2 elements"@),
        ),
        items.len() > 2 && items[0] is Text && items[1] is Bool ==> confirmation_payload(
            JsonModel::Array(items),
        ) == Err::<ConfirmationModel, Seq<char>>(
            wrong_length(items.len(), "fewer elements in array"@),
        ),
        items.len() > 2 && items[0] is Bool && items[1] is Text ==> tool_result_payload(
            JsonModel::Array(items),
        ) == Err::<ToolResultModel, Seq<char>>(
            wrong_length(items.len(), "fewer elements in array"@),
        ),
        items.len() == 0 ==> tool_call_payload(JsonModel::Array(items)) == Err::<
            ToolCallModel,
            Seq<char>,
        >(wrong_length(0, "struct ToolCall with 6 elements"@)),
{
}

} // verus!
