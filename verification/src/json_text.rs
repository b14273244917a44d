//! JSON as text: printing a value, reading one, and counting the members that a
//! text spells at its top level.

use vstd::prelude::*;

use crate::json::{from_value, member_models, member_of, to_value, value_model, Json, JsonModel,
    Member, MemberModel};
use crate::text::{chars_of, decimal};

verus! {

/// The compact text that serde_json prints for a value.
pub uninterp spec fn json_printed(value: JsonModel) -> Seq<char>;

/// What serde_json makes of a text: the value that it spells, or the message of
/// the error.
pub uninterp spec fn json_parsed(text: Seq<char>) -> Result<JsonModel, Seq<char>>;

/// How far a reader has come in a JSON text: how many brackets are open, whether
/// it stands in a string, whether the character before was a backslash there, and
/// how many commas it has met between the members of the outermost value.
pub struct Scan {
    pub depth: int,
    pub quoted: bool,
    pub escaped: bool,
    pub commas: nat,
}

/// The scan at the start of a text.
pub open spec fn scan_start() -> Scan {
    Scan { depth: 0, quoted: false, escaped: false, commas: 0 }
}

/// The scan behind one more character.
pub open spec fn scan_char(scan: Scan, c: char) -> Scan {
    if scan.quoted {
        if scan.escaped {
            Scan { escaped: false, ..scan }
        } else if c == '\\' {
            Scan { escaped: true, ..scan }
        } else if c == '"' {
            Scan { quoted: false, ..scan }
        } else {
            scan
        }
    } else if c == '"' {
        Scan { quoted: true, ..scan }
    } else if c == '[' || c == '{' {
        Scan { depth: scan.depth + 1, ..scan }
    } else if c == ']' || c == '}' {
        Scan { depth: scan.depth - 1, ..scan }
    } else if c == ',' && scan.depth == 1 {
        Scan { commas: scan.commas + 1, ..scan }
    } else {
        scan
    }
}

/// The scan behind a text.
pub open spec fn scanned(scan: Scan, text: Seq<char>) -> Scan
    decreases text.len(),
{
    if text.len() == 0 {
        scan
    } else {
        scan_char(scanned(scan, text.drop_last()), text.last())
    }
}

/// A text that, inside an outer value, leaves the scan where it found it: its
/// brackets and quotes are closed and its own commas stand deeper.
pub open spec fn balanced(text: Seq<char>) -> bool {
    forall|scan: Scan|
        scan.depth >= 1 && !scan.quoted && !scan.escaped ==> #[trigger] scanned(scan, text) == scan
}

/// A text without control characters, so without a line break.
pub open spec fn unbroken(text: Seq<char>) -> bool {
    forall|i: int| 0 <= i < text.len() ==> (#[trigger] text[i]) as u32 >= 32
}

/// How many members the outermost object of a text spells, a name that is
/// spelled twice counting twice.
pub open spec fn spelled_members(text: Seq<char>) -> nat {
    scanned(scan_start(), text).commas + 1
}

/// An integer that keeps its value when it is printed and read again.
pub open spec fn is_integer_text(text: Seq<char>) -> bool {
    ||| exists|n: nat| n <= u64::MAX && text == #[trigger] decimal(n)
    ||| exists|n: nat| 1 <= n <= 0x8000_0000_0000_0000 && text == seq!['-'] + #[trigger] decimal(n)
}

/// A number that keeps its value when it is printed and read again: an integer, or
/// one whose text reads as the number that prints so.
pub open spec fn keeps_value(text: Seq<char>) -> bool {
    ||| is_integer_text(text)
    ||| json_parsed(text) matches Ok(JsonModel::Number(read)) && read == text
}

/// A value that survives being printed and read again: its numbers keep their
/// values, its objects list their members in order, and it nests at most `depth`
/// levels.
pub open spec fn readable(value: JsonModel, depth: nat) -> bool
    decreases value,
{
    match value {
        JsonModel::Number(text) => keeps_value(text),
        JsonModel::Array(items) => {
            &&& depth > 0
            &&& forall|i: int|
                0 <= i < items.len() ==> readable(#[trigger] items[i], (depth - 1) as nat)
        },
        JsonModel::Object(members) => {
            &&& depth > 0
            &&& crate::json::ascending(members)
            &&& forall|i: int|
                0 <= i < members.len() ==> readable(
                    (#[trigger] members[i]).value,
                    (depth - 1) as nat,
                )
        },
        _ => true,
    }
}

/// A text that reads as the value.
pub open spec fn reads_as(text: Seq<char>, value: JsonModel) -> bool {
    json_parsed(text) matches Ok(read) && read == value
}

/// How deep serde_json reads.
pub open spec fn depth_limit() -> nat {
    127
}

/// The text of the members of an object, in the order given.
pub open spec fn members_text(members: Seq<MemberModel>) -> Seq<char>
    decreases members.len(),
{
    if members.len() == 0 {
        Seq::empty()
    } else {
        let head = if members.len() == 1 {
            Seq::<char>::empty()
        } else {
            members_text(members.drop_last()).push(',')
        };
        let last = members.last();
        head + json_printed(JsonModel::Text(last.name)) + seq![':'] + json_printed(last.value)
    }
}

/// The text of an object, its members in the order given.
pub open spec fn object_text(members: Seq<MemberModel>) -> Seq<char> {
    seq!['{'] + members_text(members) + seq!['}']
}

/// Members of different names whose values survive being printed and read again.
pub open spec fn readable_members(members: Seq<MemberModel>) -> bool {
    &&& forall|i: int, j: int|
        0 <= i < j < members.len() ==> (#[trigger] members[i]).name != (
        #[trigger] members[j]).name
    &&& forall|i: int|
        0 <= i < members.len() ==> readable(
            (#[trigger] members[i]).value,
            (depth_limit() - 1) as nat,
        )
}

/// A value that is an object with exactly these members.
pub open spec fn holds_members(value: JsonModel, members: Seq<MemberModel>) -> bool {
    value matches JsonModel::Object(held) && held.len() == members.len() && forall|i: int|
        0 <= i < members.len() ==> member_of(held, (#[trigger] members[i]).name) == Some(
            members[i].value,
        )
}

/// Reading the text of an object whose members survive printing gives that object.
pub open spec fn read_back(text: Seq<char>, read: Option<JsonModel>) -> bool {
    forall|members: Seq<MemberModel>|
        readable_members(members) && text == #[trigger] object_text(members) ==> (
        read matches Some(value) && holds_members(value, members))
}

/// `serde_json::Value::to_string` prints a value compactly. In what it prints,
/// brackets and quotes are closed and control characters are escaped. What it
/// prints for a value that survives printing reads as that value.
#[verifier::external_body]
fn print_value(value: &serde_json::Value) -> (text: String)
    ensures
        text@ == json_printed(value_model(*value)),
        balanced(text@),
        unbroken(text@),
        readable(value_model(*value), depth_limit()) ==> reads_as(text@, value_model(*value)),
{
    value.to_string()
}

/// `serde_json::from_str` reads a value, or gives an error, whose message is
/// kept. The text of an object whose members survive printing spells that object.
#[verifier::external_body]
fn read_value(text: &str) -> (read: Result<serde_json::Value, String>)
    ensures
        read matches Ok(value) ==> (json_parsed(text@) matches Ok(model) && model == value_model(value)),
        read matches Err(message) ==> (json_parsed(text@) matches Err(told) && told == message@),
        read_back(
            text@,
            match read {
                Ok(value) => Some(value_model(value)),
                Err(_) => None,
            },
        ),
{
    serde_json::from_str::<serde_json::Value>(text).map_err(|error| error.to_string())
}

/// Prints a value compactly.
pub fn print_json(json: &Json) -> (text: String)
    ensures
        text@ == json_printed(json@),
        balanced(text@),
        unbroken(text@),
        readable(json@, depth_limit()) ==> reads_as(text@, json@),
{
    print_value(&to_value(json))
}

/// Reads a value.
pub fn parse_json(text: &str) -> (read: Result<Json, String>)
    ensures
        read matches Ok(json) ==> (json_parsed(text@) matches Ok(model) && model == json@),
        read matches Err(message) ==> (json_parsed(text@) matches Err(told) && told == message@),
        read_back(
            text@,
            match read {
                Ok(json) => Some(json@),
                Err(_) => None,
            },
        ),
{
    match read_value(text) {
        Ok(value) => Ok(from_value(value)),
        Err(message) => Err(message),
    }
}

/// Counts the members that the outermost object of a text spells.
pub fn count_members(text: &str) -> (count: u128)
    ensures
        count == spelled_members(text@),
{
    let chars = chars_of(text);
    let mut depth: i128 = 0;
    let mut quoted = false;
    let mut escaped = false;
    let mut commas: u128 = 0;
    let mut i: usize = 0;
    while i < chars.len()
        invariant
            i <= chars@.len(),
            chars@ == text@,
            -(i as int) <= depth <= i,
            commas <= i,
            scanned(scan_start(), text@.take(i as int)) == (Scan {
                depth: depth as int,
                quoted,
                escaped,
                commas: commas as nat,
            }),
        decreases chars.len() - i,
    {
        let c = chars[i];
        proof {
            assert(text@.take(i + 1).drop_last() =~= text@.take(i as int));
            assert(text@.take(i + 1).last() == c);
        }
        if quoted {
            if escaped {
                escaped = false;
            } else if c == '\\' {
                escaped = true;
            } else if c == '"' {
                quoted = false;
            }
        } else if c == '"' {
            quoted = true;
        } else if c == '[' || c == '{' {
            depth = depth + 1;
        } else if c == ']' || c == '}' {
            depth = depth - 1;
        } else if c == ',' && depth == 1 {
            commas = commas + 1;
        }
        i += 1;
    }
    assert(text@.take(text@.len() as int) =~= text@);
    commas + 1
}

/// A scan over two texts, one behind the other.
pub proof fn lemma_scanned_add(scan: Scan, a: Seq<char>, b: Seq<char>)
    ensures
        scanned(scan, a + b) == scanned(scanned(scan, a), b),
    decreases b.len(),
{
    if b.len() == 0 {
        assert(a + b =~= a);
    } else {
        assert((a + b).drop_last() =~= a + b.drop_last());
        assert((a + b).last() == b.last());
        lemma_scanned_add(scan, a, b.drop_last());
    }
}

/// A scan over a text and one more character.
pub proof fn lemma_scanned_push(scan: Scan, a: Seq<char>, c: char)
    ensures
        scanned(scan, a.push(c)) == scan_char(scanned(scan, a), c),
{
    assert(a.push(c).drop_last() =~= a);
}

/// The scan inside an object, behind that many members.
pub open spec fn inside(members: nat) -> Scan {
    Scan {
        depth: 1,
        quoted: false,
        escaped: false,
        commas: if members == 0 {
            0
        } else {
            (members - 1) as nat
        },
    }
}

/// Prints an object, its members in the order given.
pub fn print_object(members: &Vec<Member>) -> (text: String)
    requires
        members@.len() > 0,
    ensures
        text@ == object_text(member_models(members@)),
        unbroken(text@),
        spelled_members(text@) == members@.len(),
{
    let ghost all = member_models(members@);
    let mut text = String::new();
    text.push('{');
    proof {
        lemma_scanned_push(scan_start(), Seq::empty(), '{');
        assert(all.take(0) =~= Seq::empty());
        assert(text@ =~= seq!['{'] + members_text(all.take(0)));
    }
    let mut i: usize = 0;
    while i < members.len()
        invariant
            i <= members@.len(),
            all == member_models(members@),
            text@ == seq!['{'] + members_text(all.take(i as int)),
            unbroken(text@),
            scanned(scan_start(), text@) == inside(i as nat),
        decreases members.len() - i,
    {
        let ghost before = text@;
        if i > 0 {
            text.push(',');
            proof {
                lemma_scanned_push(scan_start(), before, ',');
            }
        }
        let ghost head = text@;
        let ghost scan = scanned(scan_start(), head);
        let name = print_json(&Json::Text(members[i].name.clone()));
        let value = print_json(&members[i].value);
        text.append(name.as_str());
        text.push(':');
        text.append(value.as_str());
        proof {
            lemma_scanned_add(scan_start(), head, name@);
            lemma_scanned_push(scan_start(), head + name@, ':');
            lemma_scanned_add(scan_start(), (head + name@).push(':'), value@);
            assert(all.take(i + 1).drop_last() =~= all.take(i as int));
            assert(all.take(i + 1).last() == members@[i as int]@);
            assert(text@ =~= seq!['{'] + members_text(all.take(i + 1)));
        }
        i += 1;
    }
    let ghost before = text@;
    text.push('}');
    proof {
        lemma_scanned_push(scan_start(), before, '}');
        assert(all.take(all.len() as int) =~= all);
        assert(text@ =~= object_text(all));
    }
    text
}

} // verus!
