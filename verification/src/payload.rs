//! The payloads of facts: what they carry, how they are spelled as JSON, and how
//! they are read.

use vstd::prelude::*;

use crate::json::{ascending, lemma_member_at, lemma_view_array, lemma_view_object, member_models,
    member_of, models, Json, JsonModel, JsonObject, Member, MemberModel};
use crate::json_text::{depth_limit, holds_members, readable};
use crate::schema::{element, element_flag, element_opt, element_text, find_element,
    lemma_all_texts, member_flag, member_optional, member_text, member_texts, missing, need_element, read_element_flag,
    read_element_text, read_member_flag, read_member_optional, read_member_text, read_member_texts,
    read_text, report_missing, report_wrong_length, report_wrong_type, text_field, wrong_length,
    wrong_type};
use crate::text::{concat2, concat3, copy_opt, copy_texts, same_text, text_opt, texts};

verus! {

/// A tool that the model wants to run.
#[derive(Debug, PartialEq)]
pub struct ToolCall {
    pub id: String,
    pub name: String,
    pub args: Json,
    pub needs_confirmation: bool,
    /// Prose that accompanied the call. The fold does not branch on it.
    /// Replaying it is what lets the next model call see its own plan.
    pub text: Option<String>,
    /// Provider reasoning that accompanied the call. The fold does not branch on
    /// it. Absent on logs written before this field existed.
    pub reasoning: Option<String>,
}

/// What the model decided.
#[derive(Debug, PartialEq)]
pub enum ModelDecision {
    Text { text: String },
    Tool { call: ToolCall },
    Question {
        question_id: String,
        question: String,
        allow_free_text: bool,
        /// Options the host renders after the log is reopened. An absent field
        /// reads as an empty list.
        options: Vec<String>,
    },
}

/// What a [`ToolCall`] says.
pub struct ToolCallModel {
    pub id: Seq<char>,
    pub name: Seq<char>,
    pub args: JsonModel,
    pub needs_confirmation: bool,
    pub text: Option<Seq<char>>,
    pub reasoning: Option<Seq<char>>,
}

/// What a [`ModelDecision`] says.
pub enum DecisionModel {
    Text { text: Seq<char> },
    Tool { call: ToolCallModel },
    Question {
        question_id: Seq<char>,
        question: Seq<char>,
        allow_free_text: bool,
        options: Seq<Seq<char>>,
    },
}

impl View for ToolCall {
    type V = ToolCallModel;

    open spec fn view(&self) -> ToolCallModel {
        ToolCallModel {
            id: self.id@,
            name: self.name@,
            args: self.args@,
            needs_confirmation: self.needs_confirmation,
            text: text_opt(self.text),
            reasoning: text_opt(self.reasoning),
        }
    }
}

impl View for ModelDecision {
    type V = DecisionModel;

    open spec fn view(&self) -> DecisionModel {
        match self {
            ModelDecision::Text { text } => DecisionModel::Text { text: text@ },
            ModelDecision::Tool { call } => DecisionModel::Tool { call: call@ },
            ModelDecision::Question { question_id, question, allow_free_text, options } => {
                DecisionModel::Question {
                    question_id: question_id@,
                    question: question@,
                    allow_free_text: *allow_free_text,
                    options: texts(options@),
                }
            },
        }
    }
}

impl Clone for ToolCall {
    fn clone(&self) -> (copy: ToolCall)
        ensures
            copy@ == self@,
    {
        ToolCall {
            id: self.id.clone(),
            name: self.name.clone(),
            args: self.args.clone(),
            needs_confirmation: self.needs_confirmation,
            text: copy_opt(&self.text),
            reasoning: copy_opt(&self.reasoning),
        }
    }
}

impl Clone for ModelDecision {
    fn clone(&self) -> (copy: ModelDecision)
        ensures
            copy@ == self@,
    {
        match self {
            ModelDecision::Text { text } => ModelDecision::Text { text: text.clone() },
            ModelDecision::Tool { call } => ModelDecision::Tool { call: call.clone() },
            ModelDecision::Question { question_id, question, allow_free_text, options } => {
                ModelDecision::Question {
                    question_id: question_id.clone(),
                    question: question.clone(),
                    allow_free_text: *allow_free_text,
                    options: copy_texts(options),
                }
            },
        }
    }
}

/// Members of different names.
pub open spec fn distinct_names(members: Seq<MemberModel>) -> bool {
    forall|i: int, j: int|
        0 <= i < j < members.len() ==> (#[trigger] members[i]).name != (#[trigger] members[j]).name
}

/// A value that is an object without members of other names.
pub open spec fn holds_no_other(value: JsonModel, members: Seq<MemberModel>) -> bool {
    value matches JsonModel::Object(held) && forall|name: Seq<char>|
        (forall|k: int| 0 <= k < members.len() ==> (#[trigger] members[k]).name != name) ==> (
        #[trigger] member_of(held, name)) is None
}

/// The object with these members.
pub fn object_from(members: Vec<Member>) -> (json: Json)
    requires
        distinct_names(member_models(members@)),
    ensures
        holds_members(json@, member_models(members@)),
        holds_no_other(json@, member_models(members@)),
        json@ matches JsonModel::Object(held) && ascending(held),
{
    let ghost all = member_models(members@);
    let mut object = JsonObject::new();
    let mut i: usize = 0;
    while i < members.len()
        invariant
            i <= members@.len(),
            all == member_models(members@),
            distinct_names(all),
            ascending(object@),
            object@.len() == i,
            forall|k: int|
                0 <= k < i ==> member_of(object@, (#[trigger] all[k]).name) == Some(all[k].value),
            forall|name: Seq<char>|
                (forall|k: int| 0 <= k < i ==> (#[trigger] all[k]).name != name) ==> (
                #[trigger] member_of(object@, name)) is None,
        decreases members.len() - i,
    {
        let ghost before = object@;
        proof {
            assert(all[i as int] == members@[i as int]@);
            assert(member_of(before, all[i as int].name) is None);
        }
        object.insert(members[i].name.clone(), members[i].value.clone());
        proof {
            assert forall|name: Seq<char>|
                (forall|k: int| 0 <= k < i + 1 ==> (#[trigger] all[k]).name != name) implies (
            #[trigger] member_of(object@, name)) is None by {
                assert(all[i as int].name != name);
                assert(member_of(before, name) is None);
            }
        }
        i += 1;
    }
    proof {
        lemma_view_object(object);
    }
    Json::Object(object)
}

/// An object survives being printed and read again where its members do.
pub proof fn lemma_object_readable(value: JsonModel, members: Seq<MemberModel>, depth: nat)
    requires
        holds_members(value, members),
        holds_no_other(value, members),
        ascending(value->Object_0),
        depth > 0,
        forall|k: int|
            0 <= k < members.len() ==> readable(
                (#[trigger] members[k]).value,
                (depth - 1) as nat,
            ),
    ensures
        readable(value, depth),
{
    let held = value->Object_0;
    assert forall|i: int| 0 <= i < held.len() implies readable(
        (#[trigger] held[i]).value,
        (depth - 1) as nat,
    ) by {
        lemma_member_at(held, i);
        if forall|k: int| 0 <= k < members.len() ==> (#[trigger] members[k]).name != held[i].name {
            assert(member_of(held, held[i].name) is None);
        } else {
            let k = choose|k: int|
                0 <= k < members.len() && (#[trigger] members[k]).name == held[i].name;
            assert(member_of(held, members[k].name) == Some(members[k].value));
        }
    }
}

/// The one text that a record of one field carries.
pub open spec fn single_text(value: JsonModel, name: Seq<char>, record: Seq<char>) -> Result<
    Seq<char>,
    Seq<char>,
> {
    match value {
        JsonModel::Object(members) => text_field(member_of(members, name), name),
        JsonModel::Array(items) => match element_text(items, 0, record + " with 1 element"@) {
            Err(report) => Err(report),
            Ok(text) => if items.len() > 1 {
                Err(wrong_length(items.len(), "fewer elements in array"@))
            } else {
                Ok(text)
            },
        },
        _ => Err(wrong_type(value, record)),
    }
}

fn read_single_text(value: &Json, name: &str, record: &str) -> (read: Result<String, String>)
    ensures
        read matches Ok(text) ==> (single_text(value@, name@, record@) matches Ok(m) && m
            == text@),
        read matches Err(report) ==> (single_text(value@, name@, record@) matches Err(m) && m
            == report@),
{
    match value {
        Json::Object(object) => {
            proof {
                lemma_view_object(*object);
            }
            read_text(object.get(name), name)
        },
        Json::Array(items) => {
            proof {
                lemma_view_array(*items);
                assert(models(items@).skip(0) =~= models(items@));
            }
            let expected = concat2(record, " with 1 element");
            match read_element_text(items, 0, 0, expected.as_str()) {
                Err(report) => Err(report),
                Ok(text) => if items.len() > 1 {
                    Err(report_wrong_length(items.len(), "fewer elements in array"))
                } else {
                    Ok(text)
                },
            }
        },
        _ => Err(report_wrong_type(value, record)),
    }
}

/// The text that a user or an answer carries.
pub open spec fn text_payload(value: JsonModel) -> Result<Seq<char>, Seq<char>> {
    single_text(value, "text"@, "struct TextPayload"@)
}

/// Reads the text that a user or an answer carries.
pub fn read_text_payload(value: &Json) -> (read: Result<String, String>)
    ensures
        read matches Ok(text) ==> (text_payload(value@) matches Ok(m) && m == text@),
        read matches Err(report) ==> (text_payload(value@) matches Err(m) && m == report@),
{
    read_single_text(value, "text", "struct TextPayload")
}

/// The summary that a compaction carries.
pub open spec fn summary_payload(value: JsonModel) -> Result<Seq<char>, Seq<char>> {
    single_text(value, "summary"@, "struct SummaryPayload"@)
}

/// Reads the summary that a compaction carries.
pub fn read_summary_payload(value: &Json) -> (read: Result<String, String>)
    ensures
        read matches Ok(text) ==> (summary_payload(value@) matches Ok(m) && m == text@),
        read matches Err(report) ==> (summary_payload(value@) matches Err(m) && m == report@),
{
    read_single_text(value, "summary", "struct SummaryPayload")
}

/// The answer to a confirmation.
pub struct ConfirmationPayload {
    pub tool_call_id: String,
    pub approved: bool,
}

/// What a [`ConfirmationPayload`] says.
pub struct ConfirmationModel {
    pub tool_call_id: Seq<char>,
    pub approved: bool,
}

impl View for ConfirmationPayload {
    type V = ConfirmationModel;

    open spec fn view(&self) -> ConfirmationModel {
        ConfirmationModel { tool_call_id: self.tool_call_id@, approved: self.approved }
    }
}

/// The answer to a confirmation that a value spells. The members of an object are
/// read in the order of their names before one that is absent is reported.
pub open spec fn confirmation_payload(value: JsonModel) -> Result<ConfirmationModel, Seq<char>> {
    match value {
        JsonModel::Object(members) => match member_flag(member_of(members, "approved"@)) {
            Err(report) => Err(report),
            Ok(approved) => match member_text(member_of(members, "tool_call_id"@)) {
                Err(report) => Err(report),
                Ok(tool_call_id) => match (tool_call_id, approved) {
                    (None, _) => Err(missing("tool_call_id"@)),
                    (_, None) => Err(missing("approved"@)),
                    (Some(tool_call_id), Some(approved)) => Ok(
                        ConfirmationModel { tool_call_id, approved },
                    ),
                },
            },
        },
        JsonModel::Array(items) => match element_text(
            items,
            0,
            "struct ConfirmationPayload with 2 elements"@,
        ) {
            Err(report) => Err(report),
            Ok(tool_call_id) => match element_flag(
                items,
                1,
                "struct ConfirmationPayload with 2 elements"@,
            ) {
                Err(report) => Err(report),
                Ok(approved) => if items.len() > 2 {
                    Err(wrong_length(items.len(), "fewer elements in array"@))
                } else {
                    Ok(ConfirmationModel { tool_call_id, approved })
                },
            },
        },
        _ => Err(wrong_type(value, "struct ConfirmationPayload"@)),
    }
}

/// Reads the answer to a confirmation.
pub fn read_confirmation(value: &Json) -> (read: Result<ConfirmationPayload, String>)
    ensures
        read matches Ok(answer) ==> (confirmation_payload(value@) matches Ok(m) && m == answer@),
        read matches Err(report) ==> (confirmation_payload(value@) matches Err(m) && m == report@),
{
    match value {
        Json::Object(object) => {
            proof {
                lemma_view_object(*object);
            }
            let approved = match read_member_flag(object.get("approved")) {
                Ok(approved) => approved,
                Err(report) => return Err(report),
            };
            let tool_call_id = match read_member_text(object.get("tool_call_id")) {
                Ok(tool_call_id) => tool_call_id,
                Err(report) => return Err(report),
            };
            match (tool_call_id, approved) {
                (None, _) => Err(report_missing("tool_call_id")),
                (_, None) => Err(report_missing("approved")),
                (Some(tool_call_id), Some(approved)) => Ok(
                    ConfirmationPayload { tool_call_id, approved },
                ),
            }
        },
        Json::Array(items) => {
            proof {
                lemma_view_array(*items);
                assert(models(items@).skip(0) =~= models(items@));
            }
            let expected = "struct ConfirmationPayload with 2 elements";
            let tool_call_id = match read_element_text(items, 0, 0, expected) {
                Ok(tool_call_id) => tool_call_id,
                Err(report) => return Err(report),
            };
            let approved = match read_element_flag(items, 0, 1, expected) {
                Ok(approved) => approved,
                Err(report) => return Err(report),
            };
            if items.len() > 2 {
                return Err(report_wrong_length(items.len(), "fewer elements in array"));
            }
            Ok(ConfirmationPayload { tool_call_id, approved })
        },
        _ => Err(report_wrong_type(value, "struct ConfirmationPayload")),
    }
}

/// What a tool came to.
pub struct ToolResultPayload {
    pub ok: bool,
    pub output: String,
}

/// What a [`ToolResultPayload`] says.
pub struct ToolResultModel {
    pub ok: bool,
    pub output: Seq<char>,
}

impl View for ToolResultPayload {
    type V = ToolResultModel;

    open spec fn view(&self) -> ToolResultModel {
        ToolResultModel { ok: self.ok, output: self.output@ }
    }
}

/// The result of a tool that a value spells.
pub open spec fn tool_result_payload(value: JsonModel) -> Result<ToolResultModel, Seq<char>> {
    match value {
        JsonModel::Object(members) => match member_flag(member_of(members, "ok"@)) {
            Err(report) => Err(report),
            Ok(ok) => match member_text(member_of(members, "output"@)) {
                Err(report) => Err(report),
                Ok(output) => match (ok, output) {
                    (None, _) => Err(missing("ok"@)),
                    (_, None) => Err(missing("output"@)),
                    (Some(ok), Some(output)) => Ok(ToolResultModel { ok, output }),
                },
            },
        },
        JsonModel::Array(items) => match element_flag(
            items,
            0,
            "struct ToolResultPayload with 2 elements"@,
        ) {
            Err(report) => Err(report),
            Ok(ok) => match element_text(items, 1, "struct ToolResultPayload with 2 elements"@) {
                Err(report) => Err(report),
                Ok(output) => if items.len() > 2 {
                    Err(wrong_length(items.len(), "fewer elements in array"@))
                } else {
                    Ok(ToolResultModel { ok, output })
                },
            },
        },
        _ => Err(wrong_type(value, "struct ToolResultPayload"@)),
    }
}

/// Reads the result of a tool.
pub fn read_tool_result(value: &Json) -> (read: Result<ToolResultPayload, String>)
    ensures
        read matches Ok(result) ==> (tool_result_payload(value@) matches Ok(m) && m == result@),
        read matches Err(report) ==> (tool_result_payload(value@) matches Err(m) && m == report@),
{
    match value {
        Json::Object(object) => {
            proof {
                lemma_view_object(*object);
            }
            let ok = match read_member_flag(object.get("ok")) {
                Ok(ok) => ok,
                Err(report) => return Err(report),
            };
            let output = match read_member_text(object.get("output")) {
                Ok(output) => output,
                Err(report) => return Err(report),
            };
            match (ok, output) {
                (None, _) => Err(report_missing("ok")),
                (_, None) => Err(report_missing("output")),
                (Some(ok), Some(output)) => Ok(ToolResultPayload { ok, output }),
            }
        },
        Json::Array(items) => {
            proof {
                lemma_view_array(*items);
                assert(models(items@).skip(0) =~= models(items@));
            }
            let expected = "struct ToolResultPayload with 2 elements";
            let ok = match read_element_flag(items, 0, 0, expected) {
                Ok(ok) => ok,
                Err(report) => return Err(report),
            };
            let output = match read_element_text(items, 0, 1, expected) {
                Ok(output) => output,
                Err(report) => return Err(report),
            };
            if items.len() > 2 {
                return Err(report_wrong_length(items.len(), "fewer elements in array"));
            }
            Ok(ToolResultPayload { ok, output })
        },
        _ => Err(report_wrong_type(value, "struct ToolResultPayload")),
    }
}

/// The tool call of an object. Its members are read in the order of their names
/// before one that is absent is reported; the prose and the reasoning may be
/// absent.
pub open spec fn named_call(members: Seq<MemberModel>) -> Result<ToolCallModel, Seq<char>> {
    match member_text(member_of(members, "id"@)) {
        Err(report) => Err(report),
        Ok(id) => match member_text(member_of(members, "name"@)) {
            Err(report) => Err(report),
            Ok(name) => match member_flag(member_of(members, "needs_confirmation"@)) {
                Err(report) => Err(report),
                Ok(confirm) => match member_optional(member_of(members, "reasoning"@)) {
                    Err(report) => Err(report),
                    Ok(reasoning) => match member_optional(member_of(members, "text"@)) {
                        Err(report) => Err(report),
                        Ok(text) => match (id, name, member_of(members, "args"@), confirm) {
                            (None, _, _, _) => Err(missing("id"@)),
                            (_, None, _, _) => Err(missing("name"@)),
                            (_, _, None, _) => Err(missing("args"@)),
                            (_, _, _, None) => Err(missing("needs_confirmation"@)),
                            (Some(id), Some(name), Some(args), Some(needs_confirmation)) => Ok(
                                ToolCallModel {
                                    id,
                                    name,
                                    args,
                                    needs_confirmation,
                                    text,
                                    reasoning,
                                },
                            ),
                        },
                    },
                },
            },
        },
    }
}

/// The tool call of an array, its fields by position.
pub open spec fn listed_call(items: Seq<JsonModel>) -> Result<ToolCallModel, Seq<char>> {
    match element_text(items, 0, "struct ToolCall with 6 elements"@) {
        Err(report) => Err(report),
        Ok(id) => match element_text(items, 1, "struct ToolCall with 6 elements"@) {
            Err(report) => Err(report),
            Ok(name) => match element(items, 2, "struct ToolCall with 6 elements"@) {
                Err(report) => Err(report),
                Ok(args) => match element_flag(items, 3, "struct ToolCall with 6 elements"@) {
                    Err(report) => Err(report),
                    Ok(needs_confirmation) => match member_optional(element_opt(items, 4)) {
                        Err(report) => Err(report),
                        Ok(text) => match member_optional(element_opt(items, 5)) {
                            Err(report) => Err(report),
                            Ok(reasoning) => if items.len() > 6 {
                                Err(wrong_length(items.len(), "6 elements in sequence"@))
                            } else {
                                Ok(
                                    ToolCallModel {
                                        id,
                                        name,
                                        args,
                                        needs_confirmation,
                                        text,
                                        reasoning,
                                    },
                                )
                            },
                        },
                    },
                },
            },
        },
    }
}

/// The tool call that a value in a decision spells.
pub open spec fn tool_call_payload(value: JsonModel) -> Result<ToolCallModel, Seq<char>> {
    match value {
        JsonModel::Object(members) => named_call(members),
        JsonModel::Array(items) => listed_call(items),
        _ => Err(wrong_type(value, "struct ToolCall"@)),
    }
}

fn read_named_call(object: &JsonObject) -> (read: Result<ToolCall, String>)
    ensures
        read matches Ok(call) ==> (named_call(object@) matches Ok(m) && m == call@),
        read matches Err(report) ==> (named_call(object@) matches Err(m) && m == report@),
{
    let id = match read_member_text(object.get("id")) {
        Ok(id) => id,
        Err(report) => return Err(report),
    };
    let name = match read_member_text(object.get("name")) {
        Ok(name) => name,
        Err(report) => return Err(report),
    };
    let confirm = match read_member_flag(object.get("needs_confirmation")) {
        Ok(confirm) => confirm,
        Err(report) => return Err(report),
    };
    let reasoning = match read_member_optional(object.get("reasoning")) {
        Ok(reasoning) => reasoning,
        Err(report) => return Err(report),
    };
    let text = match read_member_optional(object.get("text")) {
        Ok(text) => text,
        Err(report) => return Err(report),
    };
    let id = match id {
        Some(id) => id,
        None => return Err(report_missing("id")),
    };
    let name = match name {
        Some(name) => name,
        None => return Err(report_missing("name")),
    };
    let args = match object.get("args") {
        Some(args) => args.clone(),
        None => return Err(report_missing("args")),
    };
    match confirm {
        Some(needs_confirmation) => Ok(
            ToolCall { id, name, args, needs_confirmation, text, reasoning },
        ),
        None => Err(report_missing("needs_confirmation")),
    }
}

fn read_listed_call(items: &Vec<Json>) -> (read: Result<ToolCall, String>)
    ensures
        read matches Ok(call) ==> (listed_call(models(items@)) matches Ok(m) && m == call@),
        read matches Err(report) ==> (listed_call(models(items@)) matches Err(m) && m == report@),
{
    assert(models(items@).skip(0) =~= models(items@));
    let expected = "struct ToolCall with 6 elements";
    let id = match read_element_text(items, 0, 0, expected) {
        Ok(id) => id,
        Err(report) => return Err(report),
    };
    let name = match read_element_text(items, 0, 1, expected) {
        Ok(name) => name,
        Err(report) => return Err(report),
    };
    let args = match need_element(items, 0, 2, expected) {
        Ok(args) => args.clone(),
        Err(report) => return Err(report),
    };
    let needs_confirmation = match read_element_flag(items, 0, 3, expected) {
        Ok(needs_confirmation) => needs_confirmation,
        Err(report) => return Err(report),
    };
    let text = match read_member_optional(find_element(items, 0, 4)) {
        Ok(text) => text,
        Err(report) => return Err(report),
    };
    let reasoning = match read_member_optional(find_element(items, 0, 5)) {
        Ok(reasoning) => reasoning,
        Err(report) => return Err(report),
    };
    if items.len() > 6 {
        return Err(report_wrong_length(items.len(), "6 elements in sequence"));
    }
    Ok(ToolCall { id, name, args, needs_confirmation, text, reasoning })
}

/// Reads a tool call of a decision.
pub fn read_tool_call(value: &Json) -> (read: Result<ToolCall, String>)
    ensures
        read matches Ok(call) ==> (tool_call_payload(value@) matches Ok(m) && m == call@),
        read matches Err(report) ==> (tool_call_payload(value@) matches Err(m) && m == report@),
{
    match value {
        Json::Object(object) => {
            proof {
                lemma_view_object(*object);
            }
            read_named_call(object)
        },
        Json::Array(items) => {
            proof {
                lemma_view_array(*items);
            }
            read_listed_call(items)
        },
        _ => Err(report_wrong_type(value, "struct ToolCall")),
    }
}

/// What a model can decide on.
pub enum DecisionKind {
    Text,
    Tool,
    Question,
}

/// The kind that a value names.
pub open spec fn kind_of(value: JsonModel) -> Result<DecisionKind, Seq<char>> {
    match value {
        JsonModel::Text(text) => if text == "text"@ {
            Ok(DecisionKind::Text)
        } else if text == "tool"@ {
            Ok(DecisionKind::Tool)
        } else if text == "question"@ {
            Ok(DecisionKind::Question)
        } else {
            Err(
                "unknown variant `"@ + text
                    + "`, expected one of `text`, `tool`, `question`"@,
            )
        },
        _ => Err(wrong_type(value, "variant identifier"@)),
    }
}

fn read_kind(value: &Json) -> (read: Result<DecisionKind, String>)
    ensures
        read matches Ok(kind) ==> (kind_of(value@) matches Ok(m) && m == kind),
        read matches Err(report) ==> (kind_of(value@) matches Err(m) && m == report@),
{
    match value {
        Json::Text(text) => {
            if same_text(text.as_str(), "text") {
                Ok(DecisionKind::Text)
            } else if same_text(text.as_str(), "tool") {
                Ok(DecisionKind::Tool)
            } else if same_text(text.as_str(), "question") {
                Ok(DecisionKind::Question)
            } else {
                Err(
                    concat3(
                        "unknown variant `",
                        text.as_str(),
                        "`, expected one of `text`, `tool`, `question`",
                    ),
                )
            }
        },
        _ => Err(report_wrong_type(value, "variant identifier")),
    }
}

/// The decision of a kind that an object spells.
pub open spec fn named_decision(kind: DecisionKind, members: Seq<MemberModel>) -> Result<
    DecisionModel,
    Seq<char>,
> {
    match kind {
        DecisionKind::Text => match text_field(member_of(members, "text"@), "text"@) {
            Err(report) => Err(report),
            Ok(text) => Ok(DecisionModel::Text { text }),
        },
        DecisionKind::Tool => match member_of(members, "call"@) {
            None => Err(missing("call"@)),
            Some(spelled) => match tool_call_payload(spelled) {
                Err(report) => Err(report),
                Ok(call) => Ok(DecisionModel::Tool { call }),
            },
        },
        DecisionKind::Question => named_question(members),
    }
}

/// The question that an object spells. Its members are read in the order of their
/// names before one that is absent is reported; the options may be absent.
pub open spec fn named_question(members: Seq<MemberModel>) -> Result<DecisionModel, Seq<char>> {
    match member_flag(member_of(members, "allow_free_text"@)) {
        Err(report) => Err(report),
        Ok(allow) => match member_texts(member_of(members, "options"@)) {
            Err(report) => Err(report),
            Ok(options) => match member_text(member_of(members, "question"@)) {
                Err(report) => Err(report),
                Ok(question) => match member_text(member_of(members, "question_id"@)) {
                    Err(report) => Err(report),
                    Ok(question_id) => match (question_id, question, allow) {
                        (None, _, _) => Err(missing("question_id"@)),
                        (_, None, _) => Err(missing("question"@)),
                        (_, _, None) => Err(missing("allow_free_text"@)),
                        (Some(question_id), Some(question), Some(allow_free_text)) => Ok(
                            DecisionModel::Question {
                                question_id,
                                question,
                                allow_free_text,
                                options,
                            },
                        ),
                    },
                },
            },
        },
    }
}

/// The decision of a kind that the elements behind the kind spell.
pub open spec fn listed_decision(kind: DecisionKind, rest: Seq<JsonModel>) -> Result<
    DecisionModel,
    Seq<char>,
> {
    match kind {
        DecisionKind::Text => match element_text(
            rest,
            0,
            "struct variant ModelDecision::Text with 1 element"@,
        ) {
            Err(report) => Err(report),
            Ok(text) => if rest.len() > 1 {
                Err(wrong_length(rest.len(), "1 element in sequence"@))
            } else {
                Ok(DecisionModel::Text { text })
            },
        },
        DecisionKind::Tool => match element(
            rest,
            0,
            "struct variant ModelDecision::Tool with 1 element"@,
        ) {
            Err(report) => Err(report),
            Ok(spelled) => match tool_call_payload(spelled) {
                Err(report) => Err(report),
                Ok(call) => if rest.len() > 1 {
                    Err(wrong_length(rest.len(), "1 element in sequence"@))
                } else {
                    Ok(DecisionModel::Tool { call })
                },
            },
        },
        DecisionKind::Question => listed_question(rest),
    }
}

/// The question that elements spell by position.
pub open spec fn listed_question(rest: Seq<JsonModel>) -> Result<DecisionModel, Seq<char>> {
    match element_text(rest, 0, "struct variant ModelDecision::Question with 4 elements"@) {
        Err(report) => Err(report),
        Ok(question_id) => match element_text(
            rest,
            1,
            "struct variant ModelDecision::Question with 4 elements"@,
        ) {
            Err(report) => Err(report),
            Ok(question) => match element_flag(
                rest,
                2,
                "struct variant ModelDecision::Question with 4 elements"@,
            ) {
                Err(report) => Err(report),
                Ok(allow_free_text) => match member_texts(element_opt(rest, 3)) {
                    Err(report) => Err(report),
                    Ok(options) => if rest.len() > 4 {
                        Err(wrong_length(rest.len(), "4 elements in sequence"@))
                    } else {
                        Ok(
                            DecisionModel::Question {
                                question_id,
                                question,
                                allow_free_text,
                                options,
                            },
                        )
                    },
                },
            },
        },
    }
}

/// The decision that a value spells: its kind decides on the fields beside it.
pub open spec fn decision_payload(value: JsonModel) -> Result<DecisionModel, Seq<char>> {
    match value {
        JsonModel::Object(members) => match member_of(members, "kind"@) {
            None => Err(missing("kind"@)),
            Some(named) => match kind_of(named) {
                Err(report) => Err(report),
                Ok(kind) => named_decision(kind, members),
            },
        },
        JsonModel::Array(items) => if items.len() == 0 {
            Err(missing("kind"@))
        } else {
            match kind_of(items[0]) {
                Err(report) => Err(report),
                Ok(kind) => listed_decision(kind, items.skip(1)),
            }
        },
        _ => Err(wrong_type(value, "internally tagged enum ModelDecision"@)),
    }
}

fn read_named_question(object: &JsonObject) -> (read: Result<ModelDecision, String>)
    ensures
        read matches Ok(decision) ==> (named_question(object@) matches Ok(m) && m == decision@),
        read matches Err(report) ==> (named_question(object@) matches Err(m) && m == report@),
{
    let allow = match read_member_flag(object.get("allow_free_text")) {
        Ok(allow) => allow,
        Err(report) => return Err(report),
    };
    let options = match read_member_texts(object.get("options")) {
        Ok(options) => options,
        Err(report) => return Err(report),
    };
    let question = match read_member_text(object.get("question")) {
        Ok(question) => question,
        Err(report) => return Err(report),
    };
    let question_id = match read_member_text(object.get("question_id")) {
        Ok(question_id) => question_id,
        Err(report) => return Err(report),
    };
    match (question_id, question, allow) {
        (None, _, _) => Err(report_missing("question_id")),
        (_, None, _) => Err(report_missing("question")),
        (_, _, None) => Err(report_missing("allow_free_text")),
        (Some(question_id), Some(question), Some(allow_free_text)) => Ok(
            ModelDecision::Question { question_id, question, allow_free_text, options },
        ),
    }
}

fn read_named_decision(kind: DecisionKind, object: &JsonObject) -> (read: Result<
    ModelDecision,
    String,
>)
    ensures
        read matches Ok(decision) ==> (named_decision(kind, object@) matches Ok(m) && m
            == decision@),
        read matches Err(report) ==> (named_decision(kind, object@) matches Err(m) && m == report@),
{
    match kind {
        DecisionKind::Text => match read_text(object.get("text"), "text") {
            Ok(text) => Ok(ModelDecision::Text { text }),
            Err(report) => Err(report),
        },
        DecisionKind::Tool => match object.get("call") {
            None => Err(report_missing("call")),
            Some(spelled) => match read_tool_call(spelled) {
                Ok(call) => Ok(ModelDecision::Tool { call }),
                Err(report) => Err(report),
            },
        },
        DecisionKind::Question => read_named_question(object),
    }
}

fn read_listed_question(items: &Vec<Json>) -> (read: Result<ModelDecision, String>)
    requires
        items@.len() > 0,
    ensures
        read matches Ok(decision) ==> (listed_question(models(items@).skip(1)) matches Ok(m) && m
            == decision@),
        read matches Err(report) ==> (listed_question(models(items@).skip(1)) matches Err(m) && m
            == report@),
{
    let expected = "struct variant ModelDecision::Question with 4 elements";
    let question_id = match read_element_text(items, 1, 0, expected) {
        Ok(question_id) => question_id,
        Err(report) => return Err(report),
    };
    let question = match read_element_text(items, 1, 1, expected) {
        Ok(question) => question,
        Err(report) => return Err(report),
    };
    let allow_free_text = match read_element_flag(items, 1, 2, expected) {
        Ok(allow_free_text) => allow_free_text,
        Err(report) => return Err(report),
    };
    let options = match read_member_texts(find_element(items, 1, 3)) {
        Ok(options) => options,
        Err(report) => return Err(report),
    };
    let len: usize = items.len() - 1;
    if len > 4 {
        return Err(report_wrong_length(len, "4 elements in sequence"));
    }
    Ok(ModelDecision::Question { question_id, question, allow_free_text, options })
}

fn read_listed_decision(kind: DecisionKind, items: &Vec<Json>) -> (read: Result<
    ModelDecision,
    String,
>)
    requires
        items@.len() > 0,
    ensures
        read matches Ok(decision) ==> (listed_decision(kind, models(items@).skip(1)) matches Ok(m)
            && m == decision@),
        read matches Err(report) ==> (listed_decision(kind, models(items@).skip(1)) matches Err(m)
            && m == report@),
{
    let len: usize = items.len() - 1;
    match kind {
        DecisionKind::Text => {
            let expected = "struct variant ModelDecision::Text with 1 element";
            match read_element_text(items, 1, 0, expected) {
                Err(report) => Err(report),
                Ok(text) => if len > 1 {
                    Err(report_wrong_length(len, "1 element in sequence"))
                } else {
                    Ok(ModelDecision::Text { text })
                },
            }
        },
        DecisionKind::Tool => {
            let expected = "struct variant ModelDecision::Tool with 1 element";
            let spelled = match need_element(items, 1, 0, expected) {
                Ok(spelled) => spelled,
                Err(report) => return Err(report),
            };
            match read_tool_call(spelled) {
                Err(report) => Err(report),
                Ok(call) => if len > 1 {
                    Err(report_wrong_length(len, "1 element in sequence"))
                } else {
                    Ok(ModelDecision::Tool { call })
                },
            }
        },
        DecisionKind::Question => read_listed_question(items),
    }
}

/// Reads a decision.
pub fn read_decision(value: &Json) -> (read: Result<ModelDecision, String>)
    ensures
        read matches Ok(decision) ==> (decision_payload(value@) matches Ok(m) && m == decision@),
        read matches Err(report) ==> (decision_payload(value@) matches Err(m) && m == report@),
{
    match value {
        Json::Object(object) => {
            proof {
                lemma_view_object(*object);
            }
            match object.get("kind") {
                None => Err(report_missing("kind")),
                Some(named) => match read_kind(named) {
                    Ok(kind) => read_named_decision(kind, object),
                    Err(report) => Err(report),
                },
            }
        },
        Json::Array(items) => {
            proof {
                lemma_view_array(*items);
            }
            if items.len() == 0 {
                return Err(report_missing("kind"));
            }
            assert(models(items@)[0] == items@[0]@);
            match read_kind(&items[0]) {
                Ok(kind) => read_listed_decision(kind, items),
                Err(report) => Err(report),
            }
        },
        _ => Err(report_wrong_type(value, "internally tagged enum ModelDecision")),
    }
}

/// The member of an optional text: none where the text is absent.
pub open spec fn text_member(text: Option<Seq<char>>) -> Option<JsonModel> {
    match text {
        Some(text) => Some(JsonModel::Text(text)),
        None => None,
    }
}

/// One where there is something, else none.
pub open spec fn count_of<T>(item: Option<T>) -> nat {
    if item is Some {
        1
    } else {
        0
    }
}

/// A value that spells a tool call: an object with a member for each field, but
/// none for prose or reasoning that is absent.
pub open spec fn spells_call(value: JsonModel, call: ToolCallModel) -> bool {
    value matches JsonModel::Object(held) && {
        &&& held.len() == 4 + count_of(call.text) + count_of(call.reasoning)
        &&& member_of(held, "id"@) == Some(JsonModel::Text(call.id))
        &&& member_of(held, "name"@) == Some(JsonModel::Text(call.name))
        &&& member_of(held, "args"@) == Some(call.args)
        &&& member_of(held, "needs_confirmation"@) == Some(JsonModel::Bool(call.needs_confirmation))
        &&& member_of(held, "text"@) == text_member(call.text)
        &&& member_of(held, "reasoning"@) == text_member(call.reasoning)
    }
}

/// A value that spells a decision: an object with its kind and its fields.
pub open spec fn spells_decision(value: JsonModel, decision: DecisionModel) -> bool {
    value matches JsonModel::Object(held) && match decision {
        DecisionModel::Text { text } => {
            &&& held.len() == 2
            &&& member_of(held, "kind"@) == Some(JsonModel::Text("text"@))
            &&& member_of(held, "text"@) == Some(JsonModel::Text(text))
        },
        DecisionModel::Tool { call } => {
            &&& held.len() == 2
            &&& member_of(held, "kind"@) == Some(JsonModel::Text("tool"@))
            &&& member_of(held, "call"@) matches Some(spelled) && spells_call(spelled, call)
        },
        DecisionModel::Question { question_id, question, allow_free_text, options } => {
            &&& held.len() == 5
            &&& member_of(held, "kind"@) == Some(JsonModel::Text("question"@))
            &&& member_of(held, "question_id"@) == Some(JsonModel::Text(question_id))
            &&& member_of(held, "question"@) == Some(JsonModel::Text(question))
            &&& member_of(held, "allow_free_text"@) == Some(JsonModel::Bool(allow_free_text))
            &&& member_of(held, "options"@) == Some(
                JsonModel::Array(options.map_values(|option: Seq<char>| JsonModel::Text(option))),
            )
        },
    }
}

proof fn lemma_call_names()
    ensures
        "id"@ != "name"@,
        "id"@ != "args"@,
        "id"@ != "needs_confirmation"@,
        "id"@ != "text"@,
        "id"@ != "reasoning"@,
        "name"@ != "args"@,
        "name"@ != "needs_confirmation"@,
        "name"@ != "text"@,
        "name"@ != "reasoning"@,
        "args"@ != "needs_confirmation"@,
        "args"@ != "text"@,
        "args"@ != "reasoning"@,
        "needs_confirmation"@ != "text"@,
        "needs_confirmation"@ != "reasoning"@,
        "text"@ != "reasoning"@,
{
    reveal_strlit("id");
    reveal_strlit("name");
    reveal_strlit("args");
    reveal_strlit("needs_confirmation");
    reveal_strlit("text");
    reveal_strlit("reasoning");
    assert("id"@.len() == 2);
    assert("name"@[0] == 'n');
    assert("args"@[0] == 'a');
    assert("text"@[0] == 't');
    assert("reasoning"@.len() == 9);
    assert("needs_confirmation"@.len() == 18);
    assert("name"@.len() == 4 && "args"@.len() == 4 && "text"@.len() == 4);
}

/// A decision whose spelling survives being printed and read again: the arguments
/// of its call do, and leave room for what stands around them.
pub open spec fn survives(decision: DecisionModel) -> bool {
    decision matches DecisionModel::Tool { call } ==> readable(
        call.args,
        (depth_limit() - 3) as nat,
    )
}

/// A text, a truth value, or the arguments of a call.
spec fn plain_or(value: JsonModel, args: JsonModel) -> bool {
    value is Text || value is Bool || value == args
}

/// The spelling of a call survives where its arguments do.
proof fn lemma_call_readable(value: JsonModel, members: Seq<MemberModel>, call: ToolCallModel)
    requires
        holds_members(value, members),
        holds_no_other(value, members),
        ascending(value->Object_0),
        forall|k: int|
            0 <= k < members.len() ==> plain_or((#[trigger] members[k]).value, call.args),
    ensures
        survives(DecisionModel::Tool { call }) ==> readable(value, (depth_limit() - 2) as nat),
{
    if survives(DecisionModel::Tool { call }) {
        assert forall|k: int| 0 <= k < members.len() implies readable(
            (#[trigger] members[k]).value,
            (depth_limit() - 3) as nat,
        ) by {
            assert(plain_or(members[k].value, call.args));
        }
        lemma_object_readable(value, members, (depth_limit() - 2) as nat);
    }
}

/// Spells a tool call.
pub fn write_tool_call(call: &ToolCall) -> (json: Json)
    ensures
        spells_call(json@, call@),
        survives(DecisionModel::Tool { call: call@ }) ==> readable(
            json@,
            (depth_limit() - 2) as nat,
        ),
{
    let mut members = vec![
        Member { name: "id".to_owned(), value: Json::Text(call.id.clone()) },
        Member { name: "name".to_owned(), value: Json::Text(call.name.clone()) },
        Member { name: "args".to_owned(), value: call.args.clone() },
        Member {
            name: "needs_confirmation".to_owned(),
            value: Json::Bool(call.needs_confirmation),
        },
    ];
    proof {
        lemma_call_names();
        let all = member_models(members@);
        assert(all[0].name == "id"@ && all[1].name == "name"@ && all[2].name == "args"@
            && all[3].name == "needs_confirmation"@);
        assert(all[0].value == JsonModel::Text(call@.id));
        assert(all[1].value == JsonModel::Text(call@.name));
        assert(all[2].value == call@.args);
        assert(all[3].value == JsonModel::Bool(call@.needs_confirmation));
    }
    match &call.text {
        Some(text) => {
            members.push(Member { name: "text".to_owned(), value: Json::Text(text.clone()) });
            assert(member_models(members@)[4].name == "text"@);
        },
        None => {},
    }
    match &call.reasoning {
        Some(reasoning) => {
            members.push(
                Member { name: "reasoning".to_owned(), value: Json::Text(reasoning.clone()) },
            );
            assert(member_models(members@).last().name == "reasoning"@);
        },
        None => {},
    }
    let ghost all = member_models(members@);
    proof {
        assert(forall|i: int| 0 <= i < all.len() ==> #[trigger] all[i] == members@[i]@);
        assert(all.len() == 4 + count_of(call@.text) + count_of(call@.reasoning));
        assert(distinct_names(all));
    }
    let ghost listed = members@;
    let json = object_from(members);
    proof {
        let held = json@->Object_0;
        assert(member_of(held, all[0].name) == Some(all[0].value));
        assert(member_of(held, all[1].name) == Some(all[1].value));
        assert(member_of(held, all[2].name) == Some(all[2].value));
        assert(member_of(held, all[3].name) == Some(all[3].value));
        if call.text is Some {
            assert(member_of(held, all[4].name) == Some(all[4].value));
        } else {
            assert(member_of(held, "text"@) is None);
        }
        if call.reasoning is Some {
            let last = all.len() - 1;
            assert(member_of(held, all[last].name) == Some(all[last].value));
        } else {
            assert(member_of(held, "reasoning"@) is None);
        }
        assert forall|k: int| 0 <= k < all.len() implies plain_or(
            (#[trigger] all[k]).value,
            call@.args,
        ) by {
            assert(all[k] == listed[k]@);
        }
        lemma_call_readable(json@, all, call@);
    }
    json
}

proof fn lemma_decision_names()
    ensures
        "kind"@ != "text"@,
        "kind"@ != "call"@,
        "kind"@ != "question_id"@,
        "kind"@ != "question"@,
        "kind"@ != "allow_free_text"@,
        "kind"@ != "options"@,
        "question_id"@ != "question"@,
        "question_id"@ != "allow_free_text"@,
        "question_id"@ != "options"@,
        "question"@ != "allow_free_text"@,
        "question"@ != "options"@,
        "allow_free_text"@ != "options"@,
        "text"@ != "tool"@,
        "text"@ != "question"@,
        "tool"@ != "question"@,
{
    reveal_strlit("kind");
    reveal_strlit("text");
    reveal_strlit("tool");
    reveal_strlit("call");
    reveal_strlit("question_id");
    reveal_strlit("question");
    reveal_strlit("allow_free_text");
    reveal_strlit("options");
    assert("kind"@[0] == 'k');
    assert("text"@[0] == 't' && "text"@[1] == 'e');
    assert("tool"@[1] == 'o');
    assert("call"@[0] == 'c');
    assert("kind"@.len() == 4 && "text"@.len() == 4 && "tool"@.len() == 4);
    assert("question_id"@.len() == 11);
    assert("question"@.len() == 8);
    assert("allow_free_text"@.len() == 15);
    assert("options"@.len() == 7);
}

fn text_array(items: &Vec<String>) -> (json: Json)
    ensures
        json@ == JsonModel::Array(
            texts(items@).map_values(|item: Seq<char>| JsonModel::Text(item)),
        ),
{
    let mut spelled: Vec<Json> = Vec::new();
    let mut i: usize = 0;
    while i < items.len()
        invariant
            i <= items@.len(),
            spelled@.len() == i,
            forall|k: int|
                0 <= k < i ==> (#[trigger] spelled@[k])@ == JsonModel::Text(items@[k]@),
        decreases items.len() - i,
    {
        spelled.push(Json::Text(items[i].clone()));
        i += 1;
    }
    proof {
        lemma_view_array(spelled);
        assert(models(spelled@) =~= texts(items@).map_values(
            |item: Seq<char>| JsonModel::Text(item),
        ));
    }
    Json::Array(spelled)
}

/// Spells a decision by its kind and one field.
fn write_kind(kind: &str, name: &str, value: Json) -> (json: Json)
    requires
        "kind"@ != name@,
    ensures
        json@ matches JsonModel::Object(held) && held.len() == 2 && member_of(held, "kind"@)
            == Some(JsonModel::Text(kind@)) && member_of(held, name@) == Some(value@),
        readable(value@, (depth_limit() - 2) as nat) ==> readable(
            json@,
            (depth_limit() - 1) as nat,
        ),
{
    let members = vec![
        Member { name: "kind".to_owned(), value: Json::Text(kind.to_owned()) },
        Member { name: name.to_owned(), value },
    ];
    let ghost all = seq![
        MemberModel { name: "kind"@, value: JsonModel::Text(kind@) },
        MemberModel { name: name@, value: value@ },
    ];
    assert(member_models(members@) =~= all);
    let json = object_from(members);
    proof {
        let held = json@->Object_0;
        assert(member_of(held, all[0].name) == Some(all[0].value));
        assert(member_of(held, all[1].name) == Some(all[1].value));
        if readable(value@, (depth_limit() - 2) as nat) {
            lemma_object_readable(json@, all, (depth_limit() - 1) as nat);
        }
    }
    json
}

/// The members of a question.
spec fn question_members(
    question_id: Seq<char>,
    question: Seq<char>,
    allow_free_text: bool,
    options: Seq<JsonModel>,
) -> Seq<MemberModel> {
    seq![
        MemberModel { name: "kind"@, value: JsonModel::Text("question"@) },
        MemberModel { name: "question_id"@, value: JsonModel::Text(question_id) },
        MemberModel { name: "question"@, value: JsonModel::Text(question) },
        MemberModel { name: "allow_free_text"@, value: JsonModel::Bool(allow_free_text) },
        MemberModel { name: "options"@, value: JsonModel::Array(options) },
    ]
}

/// The members of a question have different names and survive being printed.
proof fn lemma_question_members(
    question_id: Seq<char>,
    question: Seq<char>,
    allow_free_text: bool,
    options: Seq<JsonModel>,
)
    requires
        forall|i: int| 0 <= i < options.len() ==> (#[trigger] options[i]) is Text,
    ensures
        distinct_names(question_members(question_id, question, allow_free_text, options)),
        forall|k: int|
            0 <= k < 5 ==> readable(
                (#[trigger] question_members(
                    question_id,
                    question,
                    allow_free_text,
                    options,
                )[k]).value,
                (depth_limit() - 2) as nat,
            ),
{
    let all = question_members(question_id, question, allow_free_text, options);
    lemma_decision_names();
    assert(readable(all[4].value, (depth_limit() - 2) as nat)) by {
        reveal_with_fuel(readable, 2);
    }
    assert(readable(all[0].value, (depth_limit() - 2) as nat));
    assert(readable(all[1].value, (depth_limit() - 2) as nat));
    assert(readable(all[2].value, (depth_limit() - 2) as nat));
    assert(readable(all[3].value, (depth_limit() - 2) as nat));
}

/// Spells a question.
fn write_question(question_id: &str, question: &str, allow_free_text: bool, options: &Vec<String>) -> (
json: Json)
    ensures
        spells_decision(
            json@,
            DecisionModel::Question {
                question_id: question_id@,
                question: question@,
                allow_free_text,
                options: texts(options@),
            },
        ),
        readable(json@, (depth_limit() - 1) as nat),
{
    let members = vec![
        Member { name: "kind".to_owned(), value: Json::Text("question".to_owned()) },
        Member { name: "question_id".to_owned(), value: Json::Text(question_id.to_owned()) },
        Member { name: "question".to_owned(), value: Json::Text(question.to_owned()) },
        Member { name: "allow_free_text".to_owned(), value: Json::Bool(allow_free_text) },
        Member { name: "options".to_owned(), value: text_array(options) },
    ];
    let ghost spelled = texts(options@).map_values(|option: Seq<char>| JsonModel::Text(option));
    let ghost all = question_members(question_id@, question@, allow_free_text, spelled);
    proof {
        lemma_question_members(question_id@, question@, allow_free_text, spelled);
        assert(member_models(members@) =~= all);
    }
    let json = object_from(members);
    proof {
        let held = json@->Object_0;
        assert(member_of(held, all[0].name) == Some(all[0].value));
        assert(member_of(held, all[1].name) == Some(all[1].value));
        assert(member_of(held, all[2].name) == Some(all[2].value));
        assert(member_of(held, all[3].name) == Some(all[3].value));
        assert(member_of(held, all[4].name) == Some(all[4].value));
        lemma_object_readable(json@, all, (depth_limit() - 1) as nat);
    }
    json
}

/// Spells a decision.
pub fn write_decision(decision: &ModelDecision) -> (json: Json)
    ensures
        spells_decision(json@, decision@),
        survives(decision@) ==> readable(json@, (depth_limit() - 1) as nat),
{
    proof {
        lemma_decision_names();
    }
    match decision {
        ModelDecision::Text { text } => write_kind("text", "text", Json::Text(text.clone())),
        ModelDecision::Tool { call } => write_kind("tool", "call", write_tool_call(call)),
        ModelDecision::Question { question_id, question, allow_free_text, options } => {
            write_question(
                question_id.as_str(),
                question.as_str(),
                *allow_free_text,
                options,
            )
        },
    }
}

/// Reading the spelling of a tool call gives that call.
pub proof fn law_call_round_trip(value: JsonModel, call: ToolCallModel)
    requires
        spells_call(value, call),
    ensures
        tool_call_payload(value) == Ok::<ToolCallModel, Seq<char>>(call),
{
}

/// Reading the spelling of a decision gives that decision.
pub proof fn law_decision_round_trip(value: JsonModel, decision: DecisionModel)
    requires
        spells_decision(value, decision),
    ensures
        decision_payload(value) == Ok::<DecisionModel, Seq<char>>(decision),
{
    lemma_decision_names();
    match decision {
        DecisionModel::Text { .. } => {},
        DecisionModel::Tool { call } => {
            let held = value->Object_0;
            law_call_round_trip(member_of(held, "call"@)->Some_0, call);
        },
        DecisionModel::Question { options, .. } => {
            let spelled = options.map_values(|option: Seq<char>| JsonModel::Text(option));
            assert(spelled.map_values(|item: JsonModel| item->Text_0) =~= options);
            lemma_all_texts(spelled);
        },
    }
}

} // verus!
