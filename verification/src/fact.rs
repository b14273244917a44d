//! Facts: what a log is made of, how a fact is spelled on a line, and the digest
//! that a log is cut at.

use vstd::prelude::*;

use crate::error::{ActorError, ErrorModel};
use crate::fact_report::{find_record_fault, record_fault};
use crate::json::{lemma_view_array, lemma_view_object, member_of, names_known, number_from, Json,
    JsonModel, Member, MemberModel};
use crate::json_text::{count_members, depth_limit, holds_members, json_parsed, json_printed,
    object_text, parse_json, print_json, print_object, readable, readable_members, reads_as,
    spelled_members, unbroken};
use crate::schema::{lemma_number_of, model_opt, number_of, report_wrong_type, take_number,
    wrong_type};
use crate::text::{decimal, decimal_text, text_opt};

verus! {

/// One immutable fact. `cause` is the transition key that wrote it, or `None`
/// when a caller method appended it.
#[derive(Debug, PartialEq)]
pub struct Fact {
    pub seq: u64,
    pub kind: String,
    pub key: String,
    pub cause: Option<String>,
    pub payload: Json,
}

/// A fact that has no place in a log yet.
#[derive(Debug, PartialEq)]
pub struct NewFact {
    pub kind: String,
    pub key: String,
    pub payload: Json,
}

/// Where a log was cut: its last sequence number and the digest of its facts.
#[derive(Debug, Clone, PartialEq, Eq)]
pub struct LogCut {
    pub seq: u64,
    pub digest: String,
}

/// What a [`Fact`] says.
pub struct FactModel {
    pub seq: u64,
    pub kind: Seq<char>,
    pub key: Seq<char>,
    pub cause: Option<Seq<char>>,
    pub payload: JsonModel,
}

/// What a [`NewFact`] says.
pub struct NewFactModel {
    pub kind: Seq<char>,
    pub key: Seq<char>,
    pub payload: JsonModel,
}

impl View for Fact {
    type V = FactModel;

    open spec fn view(&self) -> FactModel {
        FactModel {
            seq: self.seq,
            kind: self.kind@,
            key: self.key@,
            cause: text_opt(self.cause),
            payload: self.payload@,
        }
    }
}

impl View for NewFact {
    type V = NewFactModel;

    open spec fn view(&self) -> NewFactModel {
        NewFactModel { kind: self.kind@, key: self.key@, payload: self.payload@ }
    }
}

impl Clone for Fact {
    fn clone(&self) -> (copy: Fact)
        ensures
            copy@ == self@,
    {
        Fact {
            seq: self.seq,
            kind: self.kind.clone(),
            key: self.key.clone(),
            cause: crate::text::copy_opt(&self.cause),
            payload: self.payload.clone(),
        }
    }
}

impl Clone for NewFact {
    fn clone(&self) -> (copy: NewFact)
        ensures
            copy@ == self@,
    {
        NewFact { kind: self.kind.clone(), key: self.key.clone(), payload: self.payload.clone() }
    }
}

/// What the facts of a log say.
pub open spec fn said(facts: Seq<Fact>) -> Seq<FactModel> {
    facts.map_values(|fact: Fact| fact@)
}

/// What new facts say.
pub open spec fn said_new(facts: Seq<NewFact>) -> Seq<NewFactModel> {
    facts.map_values(|fact: NewFact| fact@)
}

/// A copy of the facts of a log.
pub fn copy_facts(facts: &[Fact]) -> (copy: Vec<Fact>)
    ensures
        said(copy@) == said(facts@),
{
    let mut copy: Vec<Fact> = Vec::new();
    let mut i: usize = 0;
    while i < facts.len()
        invariant
            i <= facts@.len(),
            copy@.len() == i,
            forall|k: int| 0 <= k < i ==> (#[trigger] copy@[k])@ == facts@[k]@,
        decreases facts.len() - i,
    {
        copy.push(facts[i].clone());
        i += 1;
    }
    assert(said(copy@) =~= said(facts@));
    copy
}

/// The names of the fields of a fact, in the order in which a line spells them.
pub open spec fn fact_fields() -> Seq<Seq<char>> {
    seq!["seq"@, "type"@, "key"@, "cause"@, "payload"@]
}

/// The cause that a record gives: none where it is null or absent.
pub open spec fn cause_held(slot: Option<JsonModel>) -> Option<Option<Seq<char>>> {
    match slot {
        None => Some(None),
        Some(JsonModel::Null) => Some(None),
        Some(JsonModel::Text(cause)) => Some(Some(cause)),
        Some(_) => None,
    }
}

/// The fact of five fields, where each has the type that it needs.
pub open spec fn fields_held(
    seq: Option<JsonModel>,
    kind: Option<JsonModel>,
    key: Option<JsonModel>,
    cause: Option<JsonModel>,
    payload: Option<JsonModel>,
) -> Option<FactModel> {
    match (seq, kind, key, cause_held(cause), payload) {
        (
            Some(JsonModel::Number(number)),
            Some(JsonModel::Text(kind)),
            Some(JsonModel::Text(key)),
            Some(cause),
            Some(payload),
        ) => match number_of(number) {
            Some(seq) => Some(FactModel { seq, kind, key, cause, payload }),
            None => None,
        },
        _ => None,
    }
}

/// The fact that a value spells, where its text spelled so many members: an object
/// with no other fields and none twice, in which the cause may be absent, or an
/// array of the five fields.
pub open spec fn fact_held(value: JsonModel, spelled: nat) -> Option<FactModel> {
    match value {
        JsonModel::Object(members) => if names_known(members, fact_fields()) && members.len()
            == spelled {
            fields_held(
                member_of(members, "seq"@),
                member_of(members, "type"@),
                member_of(members, "key"@),
                member_of(members, "cause"@),
                member_of(members, "payload"@),
            )
        } else {
            None
        },
        JsonModel::Array(items) => if items.len() == 5 {
            fields_held(
                Some(items[0]),
                Some(items[1]),
                Some(items[2]),
                Some(items[3]),
                Some(items[4]),
            )
        } else {
            None
        },
        _ => None,
    }
}

/// The report on a text that spells no fact: its fault as a record, or what makes
/// it no JSON. A text with neither is told to be no such record.
pub open spec fn fact_report(text: Seq<char>) -> Seq<char> {
    match record_fault(utf8(text)) {
        Some(report) => report,
        None => match json_parsed(text) {
            Err(message) => message,
            Ok(value) => wrong_type(value, "struct FactDto"@),
        },
    }
}

/// The fact that a text spells, or the report of why it spells none.
pub open spec fn fact_parsed(text: Seq<char>) -> Result<FactModel, Seq<char>> {
    match json_parsed(text) {
        Err(_) => Err(fact_report(text)),
        Ok(value) => match fact_held(value, spelled_members(text)) {
            None => Err(fact_report(text)),
            Some(fact) => if fact.kind.len() == 0 || fact.key.len() == 0 {
                Err("type and key are required"@)
            } else {
                Ok(fact)
            },
        },
    }
}

fn take_cause(slot: Option<&Json>) -> (cause: Option<Option<String>>)
    ensures
        cause matches Some(held) ==> cause_held(model_opt(slot)) == Some(text_opt(held)),
        cause is None ==> cause_held(model_opt(slot)) is None,
{
    match slot {
        None => Some(None),
        Some(Json::Null) => Some(None),
        Some(Json::Text(cause)) => Some(Some(cause.clone())),
        Some(_) => None,
    }
}

fn take_fields(
    seq: Option<&Json>,
    kind: Option<&Json>,
    key: Option<&Json>,
    cause: Option<&Json>,
    payload: Option<&Json>,
) -> (held: Option<Fact>)
    ensures
        held matches Some(fact) ==> fields_held(
            model_opt(seq),
            model_opt(kind),
            model_opt(key),
            model_opt(cause),
            model_opt(payload),
        ) == Some(fact@),
        held is None ==> fields_held(
            model_opt(seq),
            model_opt(kind),
            model_opt(key),
            model_opt(cause),
            model_opt(payload),
        ) is None,
{
    let cause = match take_cause(cause) {
        Some(cause) => cause,
        None => return None,
    };
    match (seq, kind, key, payload) {
        (
            Some(Json::Number(number)),
            Some(Json::Text(kind)),
            Some(Json::Text(key)),
            Some(payload),
        ) => match take_number(number) {
            Some(seq) => Some(
                Fact {
                    seq,
                    kind: kind.clone(),
                    key: key.clone(),
                    cause,
                    payload: payload.clone(),
                },
            ),
            None => None,
        },
        _ => None,
    }
}

/// The members of the object that a line spells for a fact.
pub open spec fn fact_members(fact: FactModel) -> Seq<MemberModel> {
    seq![
        MemberModel { name: "seq"@, value: JsonModel::Number(decimal(fact.seq as nat)) },
        MemberModel { name: "type"@, value: JsonModel::Text(fact.kind) },
        MemberModel { name: "key"@, value: JsonModel::Text(fact.key) },
        MemberModel {
            name: "cause"@,
            value: match fact.cause {
                Some(cause) => JsonModel::Text(cause),
                None => JsonModel::Null,
            },
        },
        MemberModel { name: "payload"@, value: fact.payload },
    ]
}

/// The line of a fact.
pub open spec fn line_text(fact: FactModel) -> Seq<char> {
    object_text(fact_members(fact))
}

/// A text that was written as the line of a fact.
pub open spec fn is_line_of(text: Seq<char>, fact: FactModel) -> bool {
    &&& text == line_text(fact)
    &&& spelled_members(text) == 5
    &&& unbroken(text)
}

/// A fact that a line gives back: its kind and key are not empty, and its payload
/// survives being printed and read again.
pub open spec fn recoverable(fact: FactModel) -> bool {
    &&& fact.kind.len() > 0
    &&& fact.key.len() > 0
    &&& readable(fact.payload, (depth_limit() - 1) as nat)
}

/// The names of the fields are five different ones.
pub proof fn lemma_field_names()
    ensures
        "seq"@ != "type"@,
        "seq"@ != "key"@,
        "seq"@ != "cause"@,
        "seq"@ != "payload"@,
        "type"@ != "key"@,
        "type"@ != "cause"@,
        "type"@ != "payload"@,
        "key"@ != "cause"@,
        "key"@ != "payload"@,
        "cause"@ != "payload"@,
{
    reveal_strlit("seq");
    reveal_strlit("type");
    reveal_strlit("key");
    reveal_strlit("cause");
    reveal_strlit("payload");
    assert("seq"@[0] == 's');
    assert("key"@[0] == 'k');
    assert("type"@.len() == 4);
    assert("cause"@.len() == 5);
    assert("payload"@.len() == 7);
}

/// Five different names among five members are all their names.
proof fn lemma_five_names(held: Seq<MemberModel>, names: Seq<Seq<char>>)
    requires
        held.len() == 5,
        names.len() == 5,
        forall|i: int, j: int| 0 <= i < j < 5 ==> #[trigger] names[i] != #[trigger] names[j],
        forall|i: int| 0 <= i < 5 ==> crate::json::has_member(held, #[trigger] names[i]),
    ensures
        names_known(held, names),
{
    let at = |n: int| choose|i: int| 0 <= i < held.len() && (#[trigger] held[i]).name == names[n];
    let (a, b, c, d, e) = (at(0), at(1), at(2), at(3), at(4));
    assert(held[a].name == names[0]);
    assert(held[b].name == names[1]);
    assert(held[c].name == names[2]);
    assert(held[d].name == names[3]);
    assert(held[e].name == names[4]);
    assert forall|i: int| 0 <= i < held.len() implies names.contains((#[trigger] held[i]).name) by {
        assert(i == a || i == b || i == c || i == d || i == e);
    }
}

/// A value that holds the members of a fact reads as that fact.
proof fn lemma_fact_held(value: JsonModel, fact: FactModel)
    requires
        holds_members(value, fact_members(fact)),
        recoverable(fact),
    ensures
        fact_held(value, 5) == Some(fact),
{
    let members = fact_members(fact);
    let held = value->Object_0;
    let names = fact_fields();
    lemma_field_names();
    assert forall|i: int| 0 <= i < 5 implies crate::json::has_member(held, #[trigger] names[i]) by {
        assert(members[i].name == names[i]);
    }
    lemma_five_names(held, names);
    lemma_number_of(fact.seq);
    assert(members[0].name == "seq"@);
    assert(members[1].name == "type"@);
    assert(members[2].name == "key"@);
    assert(members[3].name == "cause"@);
    assert(members[4].name == "payload"@);
}

/// The members of a fact survive being printed where its payload does.
proof fn lemma_fact_readable(fact: FactModel)
    requires
        recoverable(fact),
    ensures
        readable_members(fact_members(fact)),
{
    lemma_field_names();
    let n = fact.seq as nat;
    assert(crate::json_text::is_integer_text(decimal(n)));
}

/// Reads the line of a fact.
///
/// A fact is spelled as an object of its five fields, in which the cause may be
/// absent, or as an array of the five. Where the text is no JSON, where it is
/// another record or none, and where the kind or the key is empty, the answer is a
/// schema error that tells what is wrong and where. A line that was written for a
/// recoverable fact gives that fact back.
pub fn parse_fact_json(value: &str) -> (parsed: Result<Fact, ActorError>)
    ensures
        parsed matches Ok(fact) ==> (fact_parsed(value@) matches Ok(m) && m == fact@),
        parsed matches Err(error) ==> (fact_parsed(value@) matches Err(m) && error@
            == ErrorModel::Schema(m)),
        forall|fact: FactModel| #[trigger]
            is_line_of(value@, fact) && recoverable(fact) ==> (parsed matches Ok(read) && read@
                == fact),
{
    let json = match parse_json(value) {
        Ok(json) => json,
        Err(message) => {
            proof {
                assert forall|fact: FactModel| #[trigger]
                    is_line_of(value@, fact) && recoverable(fact) implies false by {
                    lemma_fact_readable(fact);
                }
            }
            let report = match find_record_fault(value) {
                Some(report) => report,
                None => message,
            };
            return Err(ActorError::Schema(report));
        },
    };
    proof {
        assert forall|fact: FactModel| #[trigger]
            is_line_of(value@, fact) && recoverable(fact) implies fact_held(json@, 5) == Some(
            fact,
        ) by {
            lemma_fact_readable(fact);
            lemma_fact_held(json@, fact);
        }
    }
    match hold_fact(&json, count_members(value)) {
        Some(fact) => {
            if fact.kind.as_str().is_empty() || fact.key.as_str().is_empty() {
                return Err(ActorError::Schema("type and key are required".to_owned()));
            }
            Ok(fact)
        },
        None => {
            let report = match find_record_fault(value) {
                Some(report) => report,
                None => report_wrong_type(&json, "struct FactDto"),
            };
            Err(ActorError::Schema(report))
        },
    }
}

/// Takes the fact that a value spells, where its text spelled so many members.
pub fn hold_fact(value: &Json, spelled: u128) -> (held: Option<Fact>)
    ensures
        held matches Some(fact) ==> fact_held(value@, spelled as nat) == Some(fact@),
        held is None ==> fact_held(value@, spelled as nat) is None,
{
    match value {
        Json::Object(object) => {
            let names: Vec<&str> = vec!["seq", "type", "key", "cause", "payload"];
            proof {
                lemma_view_object(*object);
                assert(names@.map_values(|name: &str| name@) =~= fact_fields());
            }
            if object.names_within(&names) && object.len() as u128 == spelled {
                take_fields(
                    object.get("seq"),
                    object.get("type"),
                    object.get("key"),
                    object.get("cause"),
                    object.get("payload"),
                )
            } else {
                None
            }
        },
        Json::Array(items) => {
            proof {
                lemma_view_array(*items);
            }
            if items.len() == 5 {
                take_fields(
                    Some(&items[0]),
                    Some(&items[1]),
                    Some(&items[2]),
                    Some(&items[3]),
                    Some(&items[4]),
                )
            } else {
                None
            }
        },
        _ => None,
    }
}

/// Writes the line of a fact.
pub fn fact_line(fact: &Fact) -> (line: String)
    ensures
        is_line_of(line@, fact@),
{
    let cause = match &fact.cause {
        Some(cause) => Json::Text(cause.clone()),
        None => Json::Null,
    };
    let members = vec![
        Member { name: "seq".to_owned(), value: Json::Number(number_from(fact.seq)) },
        Member { name: "type".to_owned(), value: Json::Text(fact.kind.clone()) },
        Member { name: "key".to_owned(), value: Json::Text(fact.key.clone()) },
        Member { name: "cause".to_owned(), value: cause },
        Member { name: "payload".to_owned(), value: fact.payload.clone() },
    ];
    assert(crate::json::member_models(members@) =~= fact_members(fact@));
    print_object(&members)
}

/// The SHA-256 digest of a sequence of bytes.
pub uninterp spec fn sha256(data: Seq<u8>) -> Seq<u8>;

/// `sha2::Sha256::digest` hashes the bytes it is given into 32 bytes.
#[verifier::external_body]
fn sha256_of(data: &[u8]) -> (digest: Vec<u8>)
    ensures
        digest@ == sha256(data@),
        digest@.len() == 32,
{
    <sha2::Sha256 as sha2::Digest>::digest(data).to_vec()
}

/// A text in UTF-8.
pub open spec fn utf8(text: Seq<char>) -> Seq<u8> {
    vstd::utf8::encode_utf8(text)
}

/// The texts of a fact that its digest covers. A fact without a cause has the
/// empty text in its place.
pub open spec fn covered(fact: FactModel) -> Seq<Seq<char>> {
    seq![
        decimal(fact.seq as nat),
        fact.kind,
        fact.key,
        match fact.cause {
            Some(cause) => cause,
            None => Seq::empty(),
        },
        json_printed(fact.payload),
    ]
}

/// The bytes of a fact that its digest covers.
pub open spec fn fact_bytes(fact: FactModel) -> Seq<u8> {
    let parts = covered(fact);
    utf8(parts[0]) + utf8(parts[1]) + utf8(parts[2]) + utf8(parts[3]) + utf8(parts[4]) + seq![0xffu8]
}

/// The bytes of a log that its digest covers.
pub open spec fn log_bytes(facts: Seq<FactModel>) -> Seq<u8>
    decreases facts.len(),
{
    if facts.len() == 0 {
        Seq::empty()
    } else {
        log_bytes(facts.drop_last()) + fact_bytes(facts.last())
    }
}

/// The hexadecimal digit of a number below sixteen.
pub open spec fn hex_digit(n: u8) -> char {
    if n < 10 {
        (48 + n) as char
    } else {
        (87 + n) as char
    }
}

/// Bytes in lower-case hexadecimal, two digits each.
pub open spec fn hex(bytes: Seq<u8>) -> Seq<char>
    decreases bytes.len(),
{
    if bytes.len() == 0 {
        Seq::empty()
    } else {
        hex(bytes.drop_last()).push(hex_digit(bytes.last() / 16)).push(
            hex_digit(bytes.last() % 16),
        )
    }
}

fn hex_char(n: u8) -> (c: char)
    requires
        n < 16,
    ensures
        c == hex_digit(n),
{
    if n < 10 {
        (48 + n) as char
    } else {
        (87 + n) as char
    }
}

fn hex_of(bytes: &Vec<u8>) -> (text: String)
    ensures
        text@ == hex(bytes@),
{
    let mut text = String::new();
    let mut i: usize = 0;
    assert(bytes@.take(0) =~= Seq::empty());
    while i < bytes.len()
        invariant
            i <= bytes@.len(),
            text@ == hex(bytes@.take(i as int)),
        decreases bytes.len() - i,
    {
        text.push(hex_char(bytes[i] / 16));
        text.push(hex_char(bytes[i] % 16));
        assert(bytes@.take(i + 1).drop_last() =~= bytes@.take(i as int));
        i += 1;
    }
    assert(bytes@.take(bytes@.len() as int) =~= bytes@);
    text
}

fn add_bytes(bytes: &mut Vec<u8>, text: &str)
    ensures
        final(bytes)@ == old(bytes)@ + utf8(text@),
{
    let added = text.as_bytes();
    let mut i: usize = 0;
    assert(added@.take(0) =~= Seq::empty());
    let ghost before = bytes@;
    assert(before + added@.take(0) =~= before);
    while i < added.len()
        invariant
            i <= added@.len(),
            bytes@ == before + added@.take(i as int),
        decreases added.len() - i,
    {
        bytes.push(added[i]);
        i += 1;
        assert(before + added@.take(i as int) =~= (before + added@.take(i - 1)).push(added@[i - 1]));
    }
    assert(added@.take(added@.len() as int) =~= added@);
}

/// A value that its printed text gives back, where it survives printing.
pub open spec fn told_apart(value: JsonModel) -> bool {
    readable(value, depth_limit()) ==> reads_as(json_printed(value), value)
}

/// Facts whose payloads their printed texts give back, where those survive
/// printing.
pub open spec fn payloads_told_apart(facts: Seq<FactModel>) -> bool {
    forall|i: int| 0 <= i < facts.len() ==> told_apart((#[trigger] facts[i]).payload)
}

/// The digest of a log, in hexadecimal.
///
/// The payloads of the log that survive printing are told apart by what the digest
/// covers of them: each is what its printed text reads as.
pub fn digest_facts(facts: &[Fact]) -> (digest: String)
    ensures
        digest@ == hex(sha256(log_bytes(said(facts@)))),
        digest@.len() == 64,
        payloads_told_apart(said(facts@)),
{
    let mut bytes: Vec<u8> = Vec::new();
    let mut i: usize = 0;
    assert(said(facts@).take(0) =~= Seq::empty());
    while i < facts.len()
        invariant
            i <= facts@.len(),
            bytes@ == log_bytes(said(facts@).take(i as int)),
            payloads_told_apart(said(facts@).take(i as int)),
        decreases facts.len() - i,
    {
        let ghost before = bytes@;
        add_bytes(&mut bytes, decimal_text(facts[i].seq as u128).as_str());
        add_bytes(&mut bytes, facts[i].kind.as_str());
        add_bytes(&mut bytes, facts[i].key.as_str());
        match &facts[i].cause {
            Some(cause) => {
                add_bytes(&mut bytes, cause.as_str());
            },
            None => {
                add_bytes(&mut bytes, "");
                proof {
                    reveal_strlit("");
                    assert(""@ =~= Seq::empty());
                }
            },
        }
        add_bytes(&mut bytes, print_json(&facts[i].payload).as_str());
        bytes.push(0xff);
        proof {
            let upto = said(facts@).take(i + 1);
            assert(upto.drop_last() =~= said(facts@).take(i as int));
            assert(upto.last() == facts@[i as int]@);
            assert(bytes@ =~= before + fact_bytes(facts@[i as int]@));
            assert forall|k: int| 0 <= k < upto.len() implies told_apart(
                (#[trigger] upto[k]).payload,
            ) by {
                if k < i {
                    assert(upto[k] == said(facts@).take(i as int)[k]);
                }
            }
        }
        i += 1;
    }
    assert(said(facts@).take(facts@.len() as int) =~= said(facts@));
    let digest = sha256_of(bytes.as_slice());
    proof {
        lemma_hex_len(digest@);
    }
    hex_of(&digest)
}

/// Hexadecimal takes two digits a byte.
proof fn lemma_hex_len(bytes: Seq<u8>)
    ensures
        hex(bytes).len() == 2 * bytes.len(),
    decreases bytes.len(),
{
    if bytes.len() > 0 {
        lemma_hex_len(bytes.drop_last());
    }
}

/// The sequence number of the last fact, or zero.
pub open spec fn last_seq(facts: Seq<FactModel>) -> u64 {
    if facts.len() == 0 {
        0
    } else {
        facts.last().seq
    }
}

/// Cuts a log: its last sequence number and its digest.
pub fn cut_log(facts: &[Fact]) -> (cut: LogCut)
    ensures
        cut.seq == last_seq(said(facts@)),
        cut.digest@ == hex(sha256(log_bytes(said(facts@)))),
        payloads_told_apart(said(facts@)),
{
    let seq: u64 = if facts.len() == 0 {
        0
    } else {
        facts[facts.len() - 1].seq
    };
    LogCut { seq, digest: digest_facts(facts) }
}

/// What stands between the same ends is the same.
proof fn lemma_between(head: Seq<u8>, a: Seq<u8>, b: Seq<u8>, tail: Seq<u8>)
    requires
        head + a + tail == head + b + tail,
    ensures
        a == b,
{
    let one = head + a + tail;
    let other = head + b + tail;
    assert(one.len() == other.len());
    assert(one.subrange(head.len() as int, head.len() as int + a.len()) =~= a);
    assert(other.subrange(head.len() as int, head.len() as int + b.len()) =~= b);
}

/// Different texts have different bytes.
proof fn lemma_utf8_differs(a: Seq<char>, b: Seq<char>)
    requires
        a != b,
    ensures
        utf8(a) != utf8(b),
{
    vstd::utf8::encode_utf8_decode_utf8(a);
    vstd::utf8::encode_utf8_decode_utf8(b);
}

/// The bytes of two logs, one behind the other.
proof fn lemma_log_bytes_add(a: Seq<FactModel>, b: Seq<FactModel>)
    ensures
        log_bytes(a + b) == log_bytes(a) + log_bytes(b),
    decreases b.len(),
{
    if b.len() == 0 {
        assert(a + b =~= a);
        assert(log_bytes(a) + log_bytes(b) =~= log_bytes(a));
    } else {
        assert((a + b).drop_last() =~= a + b.drop_last());
        assert((a + b).last() == b.last());
        lemma_log_bytes_add(a, b.drop_last());
        assert(log_bytes(a + b) =~= log_bytes(a) + log_bytes(b));
    }
}

/// The bytes of a log of one fact.
proof fn lemma_bytes_of_one(fact: FactModel)
    ensures
        log_bytes(seq![fact]) == fact_bytes(fact),
{
    let one = seq![fact];
    assert(one.drop_last() =~= Seq::empty());
    assert(log_bytes(one.drop_last()) =~= Seq::empty());
    assert(log_bytes(one) =~= fact_bytes(fact));
}

/// Facts that differ in one covered text have different bytes.
proof fn lemma_fact_bytes_differ(fact: FactModel, other: FactModel, field: int)
    requires
        0 <= field < 5,
        covered(fact)[field] != covered(other)[field],
        forall|i: int|
            0 <= i < 5 && i != field ==> #[trigger] covered(fact)[i] == covered(other)[i],
    ensures
        fact_bytes(fact) != fact_bytes(other),
{
    let a = covered(fact);
    let b = covered(other);
    lemma_utf8_differs(a[field], b[field]);
    let (a0, a1, a2, a3, a4) = (utf8(a[0]), utf8(a[1]), utf8(a[2]), utf8(a[3]), utf8(a[4]));
    let (b0, b1, b2, b3, b4) = (utf8(b[0]), utf8(b[1]), utf8(b[2]), utf8(b[3]), utf8(b[4]));
    let end = seq![0xffu8];
    if fact_bytes(fact) == fact_bytes(other) {
        if field == 0 {
            let tail = a1 + a2 + a3 + a4 + end;
            assert(a1 == b1 && a2 == b2 && a3 == b3 && a4 == b4);
            assert(a0 + a1 + a2 + a3 + a4 + end =~= Seq::empty() + a0 + tail);
            assert(b0 + a1 + a2 + a3 + a4 + end =~= Seq::empty() + b0 + tail);
            lemma_between(Seq::empty(), a0, b0, tail);
        } else if field == 1 {
            let tail = a2 + a3 + a4 + end;
            assert(a0 == b0 && a2 == b2 && a3 == b3 && a4 == b4);
            assert(a0 + a1 + a2 + a3 + a4 + end =~= a0 + a1 + tail);
            assert(a0 + b1 + a2 + a3 + a4 + end =~= a0 + b1 + tail);
            lemma_between(a0, a1, b1, tail);
        } else if field == 2 {
            let tail = a3 + a4 + end;
            assert(a0 == b0 && a1 == b1 && a3 == b3 && a4 == b4);
            assert(a0 + a1 + a2 + a3 + a4 + end =~= (a0 + a1) + a2 + tail);
            assert(a0 + a1 + b2 + a3 + a4 + end =~= (a0 + a1) + b2 + tail);
            lemma_between(a0 + a1, a2, b2, tail);
        } else if field == 3 {
            let tail = a4 + end;
            assert(a0 == b0 && a1 == b1 && a2 == b2 && a4 == b4);
            assert(a0 + a1 + a2 + a3 + a4 + end =~= (a0 + a1 + a2) + a3 + tail);
            assert(a0 + a1 + a2 + b3 + a4 + end =~= (a0 + a1 + a2) + b3 + tail);
            lemma_between(a0 + a1 + a2, a3, b3, tail);
        } else {
            assert(a0 == b0 && a1 == b1 && a2 == b2 && a3 == b3);
            lemma_between(a0 + a1 + a2 + a3, a4, b4, end);
        }
    }
}

/// A log in which one fact has another number, kind, key, cause or payload, and
/// all else is the same, is another input to the digest.
pub proof fn law_digest_covers_every_field(
    before: Seq<FactModel>,
    fact: FactModel,
    other: FactModel,
    after: Seq<FactModel>,
    field: int,
)
    requires
        0 <= field < 5,
        covered(fact)[field] != covered(other)[field],
        forall|i: int|
            0 <= i < 5 && i != field ==> #[trigger] covered(fact)[i] == covered(other)[i],
    ensures
        log_bytes(before + seq![fact] + after) != log_bytes(before + seq![other] + after),
{
    lemma_fact_bytes_differ(fact, other, field);
    lemma_bytes_of_one(fact);
    lemma_bytes_of_one(other);
    lemma_log_bytes_add(before, seq![fact]);
    lemma_log_bytes_add(before + seq![fact], after);
    lemma_log_bytes_add(before, seq![other]);
    lemma_log_bytes_add(before + seq![other], after);
    if log_bytes(before + seq![fact] + after) == log_bytes(before + seq![other] + after) {
        lemma_between(log_bytes(before), fact_bytes(fact), fact_bytes(other), log_bytes(after));
    }
}

/// Two logs that were digested, and in which one fact has another payload and all
/// else is the same, are different inputs to the digest, where both payloads
/// survive printing.
pub proof fn law_digest_covers_payloads(
    before: Seq<FactModel>,
    fact: FactModel,
    other: FactModel,
    after: Seq<FactModel>,
)
    requires
        other == (FactModel { payload: other.payload, ..fact }),
        fact.payload != other.payload,
        readable(fact.payload, depth_limit()),
        readable(other.payload, depth_limit()),
        payloads_told_apart(before + seq![fact] + after),
        payloads_told_apart(before + seq![other] + after),
    ensures
        log_bytes(before + seq![fact] + after) != log_bytes(before + seq![other] + after),
{
    let at = before.len() as int;
    assert((before + seq![fact] + after)[at] == fact);
    assert((before + seq![other] + after)[at] == other);
    assert(told_apart(fact.payload));
    assert(told_apart(other.payload));
    law_digest_covers_every_field(before, fact, other, after, 4);
}

} // verus!
