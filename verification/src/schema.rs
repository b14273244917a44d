//! Reading typed fields out of JSON values.
//!
//! A record is spelled as an object, whose members are found by name, or as an
//! array, whose elements are found by position. What cannot be read is reported
//! in the sentences that serde uses for values of serde_json.

use vstd::prelude::*;

use crate::error::{debug_of, debug_text};
use crate::json::{lemma_view_array, models, number_shown, number_text, Json, JsonModel};
use crate::text::{chars_of, concat2, concat3, decimal, decimal_text, texts};

verus! {

/// Whether the text of a number is that of a floating-point number: integers
/// print without a point and without an exponent.
pub open spec fn is_floating(text: Seq<char>) -> bool {
    exists|i: int| 0 <= i < text.len() && ((#[trigger] text[i]) == '.' || text[i] == 'e')
}

/// The words for a value that was not expected.
pub open spec fn unexpected(value: JsonModel) -> Seq<char> {
    match value {
        JsonModel::Null => "null"@,
        JsonModel::Bool(true) => "boolean `true`"@,
        JsonModel::Bool(false) => "boolean `false`"@,
        JsonModel::Number(text) => if is_floating(text) {
            "floating point `"@ + text + "`"@
        } else {
            "integer `"@ + text + "`"@
        },
        JsonModel::Text(text) => "string "@ + debug_text(text),
        JsonModel::Array(_) => "sequence"@,
        JsonModel::Object(_) => "map"@,
    }
}

/// The report of a value of another type than the expected one.
pub open spec fn wrong_type(value: JsonModel, expected: Seq<char>) -> Seq<char> {
    "invalid type: "@ + unexpected(value) + ", expected "@ + expected
}

/// The report of a number of elements that does not fit.
pub open spec fn wrong_length(len: nat, expected: Seq<char>) -> Seq<char> {
    "invalid length "@ + decimal(len) + ", expected "@ + expected
}

/// The report of a field that is absent.
pub open spec fn missing(name: Seq<char>) -> Seq<char> {
    "missing field `"@ + name + "`"@
}

/// The text that a value is.
pub open spec fn as_text(value: JsonModel) -> Result<Seq<char>, Seq<char>> {
    match value {
        JsonModel::Text(text) => Ok(text),
        _ => Err(wrong_type(value, "a string"@)),
    }
}

/// The truth value that a value is.
pub open spec fn as_flag(value: JsonModel) -> Result<bool, Seq<char>> {
    match value {
        JsonModel::Bool(flag) => Ok(flag),
        _ => Err(wrong_type(value, "a boolean"@)),
    }
}

/// The text that a value is, or none where it is null.
pub open spec fn as_optional_text(value: JsonModel) -> Result<Option<Seq<char>>, Seq<char>> {
    match value {
        JsonModel::Null => Ok(None),
        JsonModel::Text(text) => Ok(Some(text)),
        _ => Err(wrong_type(value, "a string"@)),
    }
}

/// The first of the elements that is no text.
pub open spec fn first_no_text(items: Seq<JsonModel>) -> Option<JsonModel>
    decreases items.len(),
{
    if items.len() == 0 {
        None
    } else {
        match first_no_text(items.drop_last()) {
            Some(item) => Some(item),
            None => if items.last() is Text {
                None
            } else {
                Some(items.last())
            },
        }
    }
}

/// The list of texts that a value is.
pub open spec fn as_texts(value: JsonModel) -> Result<Seq<Seq<char>>, Seq<char>> {
    match value {
        JsonModel::Array(items) => match first_no_text(items) {
            None => Ok(items.map_values(|item: JsonModel| item->Text_0)),
            Some(item) => Err(wrong_type(item, "a string"@)),
        },
        _ => Err(wrong_type(value, "a sequence"@)),
    }
}

/// The number that a text spells in decimal.
pub open spec fn number_of(text: Seq<char>) -> Option<u64> {
    if exists|n: u64| text == #[trigger] decimal(n as nat) {
        Some(choose|n: u64| text == #[trigger] decimal(n as nat))
    } else {
        None
    }
}

/// The text of a member, where there is one.
pub open spec fn member_text(slot: Option<JsonModel>) -> Result<Option<Seq<char>>, Seq<char>> {
    match slot {
        None => Ok(None),
        Some(value) => match as_text(value) {
            Ok(text) => Ok(Some(text)),
            Err(report) => Err(report),
        },
    }
}

/// The truth value of a member, where there is one.
pub open spec fn member_flag(slot: Option<JsonModel>) -> Result<Option<bool>, Seq<char>> {
    match slot {
        None => Ok(None),
        Some(value) => match as_flag(value) {
            Ok(flag) => Ok(Some(flag)),
            Err(report) => Err(report),
        },
    }
}

/// The optional text of a member, none where the member is absent.
pub open spec fn member_optional(slot: Option<JsonModel>) -> Result<Option<Seq<char>>, Seq<char>> {
    match slot {
        None => Ok(None),
        Some(value) => as_optional_text(value),
    }
}

/// The list of texts of a member, empty where the member is absent.
pub open spec fn member_texts(slot: Option<JsonModel>) -> Result<Seq<Seq<char>>, Seq<char>> {
    match slot {
        None => Ok(Seq::empty()),
        Some(value) => as_texts(value),
    }
}

/// The element at a position that a record needs.
pub open spec fn element(items: Seq<JsonModel>, at: nat, expected: Seq<char>) -> Result<
    JsonModel,
    Seq<char>,
> {
    if at < items.len() {
        Ok(items[at as int])
    } else {
        Err(wrong_length(at, expected))
    }
}

/// The text at a position that a record needs.
pub open spec fn element_text(items: Seq<JsonModel>, at: nat, expected: Seq<char>) -> Result<
    Seq<char>,
    Seq<char>,
> {
    match element(items, at, expected) {
        Ok(value) => as_text(value),
        Err(report) => Err(report),
    }
}

/// The truth value at a position that a record needs.
pub open spec fn element_flag(items: Seq<JsonModel>, at: nat, expected: Seq<char>) -> Result<
    bool,
    Seq<char>,
> {
    match element(items, at, expected) {
        Ok(value) => as_flag(value),
        Err(report) => Err(report),
    }
}

/// The element at a position that a record can do without.
pub open spec fn element_opt(items: Seq<JsonModel>, at: nat) -> Option<JsonModel> {
    if at < items.len() {
        Some(items[at as int])
    } else {
        None
    }
}

/// A text that has to be there.
pub open spec fn text_field(slot: Option<JsonModel>, name: Seq<char>) -> Result<
    Seq<char>,
    Seq<char>,
> {
    match slot {
        None => Err(missing(name)),
        Some(value) => as_text(value),
    }
}

/// What a borrowed value holds, where there is one.
pub open spec fn model_opt(slot: Option<&Json>) -> Option<JsonModel> {
    match slot {
        Some(json) => Some(json@),
        None => None,
    }
}

/// `serde_json::Number::as_u64` gives the number where it is an unsigned integer,
/// which it is where it prints as the decimal of one.
#[verifier::external_body]
fn number_as_u64(number: &serde_json::Number) -> (n: Option<u64>)
    ensures
        n matches Some(value) ==> number_text(*number) == decimal(value as nat),
        n is None ==> (forall|value: u64| number_text(*number) != #[trigger] decimal(value as nat)),
{
    number.as_u64()
}

/// Tests whether the text of a number is that of a floating-point number.
fn looks_floating(text: &str) -> (floating: bool)
    ensures
        floating == is_floating(text@),
{
    let chars = chars_of(text);
    let mut i: usize = 0;
    while i < chars.len()
        invariant
            i <= chars@.len(),
            chars@ == text@,
            forall|k: int| 0 <= k < i ==> (#[trigger] chars@[k]) != '.' && chars@[k] != 'e',
        decreases chars.len() - i,
    {
        if chars[i] == '.' || chars[i] == 'e' {
            assert(text@[i as int] == '.' || text@[i as int] == 'e');
            return true;
        }
        i += 1;
    }
    false
}

/// Words a value that was not expected.
pub fn describe(value: &Json) -> (words: String)
    ensures
        words@ == unexpected(value@),
{
    match value {
        Json::Null => "null".to_owned(),
        Json::Bool(flag) => if *flag {
            "boolean `true`".to_owned()
        } else {
            "boolean `false`".to_owned()
        },
        Json::Number(number) => {
            let text = number_shown(number);
            if looks_floating(text.as_str()) {
                concat3("floating point `", text.as_str(), "`")
            } else {
                concat3("integer `", text.as_str(), "`")
            }
        },
        Json::Text(text) => concat2("string ", debug_of(text.as_str()).as_str()),
        Json::Array(_) => "sequence".to_owned(),
        Json::Object(_) => "map".to_owned(),
    }
}

/// Reports a value of another type than the expected one.
pub fn report_wrong_type(value: &Json, expected: &str) -> (report: String)
    ensures
        report@ == wrong_type(value@, expected@),
{
    concat2(
        concat3("invalid type: ", describe(value).as_str(), ", expected ").as_str(),
        expected,
    )
}

/// Reports a number of elements that does not fit.
pub fn report_wrong_length(len: usize, expected: &str) -> (report: String)
    ensures
        report@ == wrong_length(len as nat, expected@),
{
    concat2(
        concat3("invalid length ", decimal_text(len as u128).as_str(), ", expected ").as_str(),
        expected,
    )
}

/// Reports a field that is absent.
pub fn report_missing(name: &str) -> (report: String)
    ensures
        report@ == missing(name@),
{
    concat3("missing field `", name, "`")
}

/// Takes a value as a text.
pub fn take_text(value: &Json) -> (read: Result<String, String>)
    ensures
        read matches Ok(text) ==> (as_text(value@) matches Ok(m) && m == text@),
        read matches Err(report) ==> (as_text(value@) matches Err(m) && m == report@),
{
    match value {
        Json::Text(text) => Ok(text.clone()),
        _ => Err(report_wrong_type(value, "a string")),
    }
}

/// Takes a value as a truth value.
pub fn take_flag(value: &Json) -> (read: Result<bool, String>)
    ensures
        read matches Ok(flag) ==> (as_flag(value@) matches Ok(m) && m == flag),
        read matches Err(report) ==> (as_flag(value@) matches Err(m) && m == report@),
{
    match value {
        Json::Bool(flag) => Ok(*flag),
        _ => Err(report_wrong_type(value, "a boolean")),
    }
}

/// Takes a number as an unsigned integer.
pub fn take_number(number: &serde_json::Number) -> (n: Option<u64>)
    ensures
        n == number_of(number_text(*number)),
{
    let n = number_as_u64(number);
    proof {
        if let Some(value) = n {
            lemma_number_of(value);
        }
    }
    n
}

/// Takes a value as a list of texts.
pub fn take_texts(value: &Json) -> (read: Result<Vec<String>, String>)
    ensures
        read matches Ok(list) ==> (as_texts(value@) matches Ok(m) && m == texts(list@)),
        read matches Err(report) ==> (as_texts(value@) matches Err(m) && m == report@),
{
    match value {
        Json::Array(items) => {
            proof {
                lemma_view_array(*items);
            }
            let ghost held = models(items@);
            let mut list: Vec<String> = Vec::new();
            let mut i: usize = 0;
            assert(held.take(0) =~= Seq::empty());
            while i < items.len()
                invariant
                    value@ == JsonModel::Array(held),
                    held == models(items@),
                    i <= items@.len(),
                    list@.len() == i,
                    first_no_text(held.take(i as int)) is None,
                    forall|k: int| 0 <= k < i ==> (#[trigger] list@[k])@ == held[k]->Text_0,
                decreases items.len() - i,
            {
                proof {
                    assert(held[i as int] == items@[i as int]@);
                    assert(held.take(i + 1).drop_last() =~= held.take(i as int));
                    assert(held.take(i + 1).last() == held[i as int]);
                }
                match &items[i] {
                    Json::Text(text) => {
                        list.push(text.clone());
                    },
                    other => {
                        proof {
                            lemma_no_text_stays(held, i + 1);
                        }
                        return Err(report_wrong_type(other, "a string"));
                    },
                }
                i += 1;
            }
            proof {
                assert(held.take(held.len() as int) =~= held);
                assert(texts(list@) =~= held.map_values(|item: JsonModel| item->Text_0));
            }
            Ok(list)
        },
        _ => Err(report_wrong_type(value, "a sequence")),
    }
}

/// Among elements that are all texts, none is no text.
pub proof fn lemma_all_texts(items: Seq<JsonModel>)
    requires
        forall|i: int| 0 <= i < items.len() ==> (#[trigger] items[i]) is Text,
    ensures
        first_no_text(items) is None,
    decreases items.len(),
{
    if items.len() > 0 {
        lemma_all_texts(items.drop_last());
    }
}

/// An element that is no text stays the first one.
proof fn lemma_no_text_stays(items: Seq<JsonModel>, upto: int)
    requires
        0 <= upto <= items.len(),
        first_no_text(items.take(upto)) is Some,
    ensures
        first_no_text(items) == first_no_text(items.take(upto)),
    decreases items.len(),
{
    if upto == items.len() {
        assert(items.take(upto) =~= items);
    } else {
        assert(items.drop_last().take(upto) =~= items.take(upto));
        lemma_no_text_stays(items.drop_last(), upto);
    }
}

/// Reads the text of a member, where there is one.
pub fn read_member_text(slot: Option<&Json>) -> (read: Result<Option<String>, String>)
    ensures
        read matches Ok(text) ==> (member_text(model_opt(slot)) matches Ok(m) && m
            == crate::text::text_opt(text)),
        read matches Err(report) ==> (member_text(model_opt(slot)) matches Err(m) && m == report@),
{
    match slot {
        None => Ok(None),
        Some(value) => match take_text(value) {
            Ok(text) => Ok(Some(text)),
            Err(report) => Err(report),
        },
    }
}

/// Reads the truth value of a member, where there is one.
pub fn read_member_flag(slot: Option<&Json>) -> (read: Result<Option<bool>, String>)
    ensures
        read matches Ok(flag) ==> (member_flag(model_opt(slot)) matches Ok(m) && m == flag),
        read matches Err(report) ==> (member_flag(model_opt(slot)) matches Err(m) && m == report@),
{
    match slot {
        None => Ok(None),
        Some(value) => match take_flag(value) {
            Ok(flag) => Ok(Some(flag)),
            Err(report) => Err(report),
        },
    }
}

/// Reads the optional text of a member.
pub fn read_member_optional(slot: Option<&Json>) -> (read: Result<Option<String>, String>)
    ensures
        read matches Ok(text) ==> (member_optional(model_opt(slot)) matches Ok(m) && m
            == crate::text::text_opt(text)),
        read matches Err(report) ==> (member_optional(model_opt(slot)) matches Err(m) && m
            == report@),
{
    match slot {
        None => Ok(None),
        Some(Json::Null) => Ok(None),
        Some(Json::Text(text)) => Ok(Some(text.clone())),
        Some(value) => Err(report_wrong_type(value, "a string")),
    }
}

/// Reads the list of texts of a member.
pub fn read_member_texts(slot: Option<&Json>) -> (read: Result<Vec<String>, String>)
    ensures
        read matches Ok(list) ==> (member_texts(model_opt(slot)) matches Ok(m) && m == texts(
            list@,
        )),
        read matches Err(report) ==> (member_texts(model_opt(slot)) matches Err(m) && m
            == report@),
{
    match slot {
        None => {
            let none: Vec<String> = Vec::new();
            assert(texts(none@) =~= Seq::empty());
            Ok(none)
        },
        Some(value) => take_texts(value),
    }
}

/// Finds the element at a position that a record can do without, behind the first
/// `skip` elements.
pub fn find_element<'a>(items: &'a Vec<Json>, skip: usize, at: usize) -> (found: Option<&'a Json>)
    requires
        skip <= items@.len(),
    ensures
        model_opt(found) == element_opt(models(items@).skip(skip as int), at as nat),
{
    let ghost rest = models(items@).skip(skip as int);
    if at < items.len() - skip {
        assert(rest[at as int] == items@[skip + at]@);
        Some(&items[skip + at])
    } else {
        None
    }
}

/// Finds the element at a position that a record needs, behind the first `skip`
/// elements.
pub fn need_element<'a>(items: &'a Vec<Json>, skip: usize, at: usize, expected: &str) -> (found:
    Result<&'a Json, String>)
    requires
        skip <= items@.len(),
    ensures
        found matches Ok(value) ==> (element(
            models(items@).skip(skip as int),
            at as nat,
            expected@,
        ) matches Ok(m) && m == value@),
        found matches Err(report) ==> (element(
            models(items@).skip(skip as int),
            at as nat,
            expected@,
        ) matches Err(m) && m == report@),
{
    match find_element(items, skip, at) {
        Some(value) => Ok(value),
        None => Err(report_wrong_length(at, expected)),
    }
}

/// Reads the text at a position that a record needs.
pub fn read_element_text(items: &Vec<Json>, skip: usize, at: usize, expected: &str) -> (read:
    Result<String, String>)
    requires
        skip <= items@.len(),
    ensures
        read matches Ok(text) ==> (element_text(
            models(items@).skip(skip as int),
            at as nat,
            expected@,
        ) matches Ok(m) && m == text@),
        read matches Err(report) ==> (element_text(
            models(items@).skip(skip as int),
            at as nat,
            expected@,
        ) matches Err(m) && m == report@),
{
    match need_element(items, skip, at, expected) {
        Ok(value) => take_text(value),
        Err(report) => Err(report),
    }
}

/// Reads the truth value at a position that a record needs.
pub fn read_element_flag(items: &Vec<Json>, skip: usize, at: usize, expected: &str) -> (read:
    Result<bool, String>)
    requires
        skip <= items@.len(),
    ensures
        read matches Ok(flag) ==> (element_flag(
            models(items@).skip(skip as int),
            at as nat,
            expected@,
        ) matches Ok(m) && m == flag),
        read matches Err(report) ==> (element_flag(
            models(items@).skip(skip as int),
            at as nat,
            expected@,
        ) matches Err(m) && m == report@),
{
    match need_element(items, skip, at, expected) {
        Ok(value) => take_flag(value),
        Err(report) => Err(report),
    }
}

/// Reads a text that has to be there.
pub fn read_text(slot: Option<&Json>, name: &str) -> (read: Result<String, String>)
    ensures
        read matches Ok(text) ==> (text_field(model_opt(slot), name@) matches Ok(m) && m == text@),
        read matches Err(report) ==> (text_field(model_opt(slot), name@) matches Err(m) && m
            == report@),
{
    match slot {
        None => Err(report_missing(name)),
        Some(value) => take_text(value),
    }
}

/// The decimal of a number spells that number.
pub proof fn lemma_number_of(n: u64)
    ensures
        number_of(decimal(n as nat)) == Some(n),
{
    let text = decimal(n as nat);
    assert(text == decimal(n as nat));
    let m = choose|m: u64| text == #[trigger] decimal(m as nat);
    crate::text::lemma_decimal_injective(m as nat, n as nat);
}

} // verus!
