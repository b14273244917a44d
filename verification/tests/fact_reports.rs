use a3s_effect::fact_report::{
    find_closing_fault, find_record_fault, judge_name, place, Step,
};
use a3s_effect::log_file::parse_log;
use a3s_effect::{parse_fact_json, ActorError};
use serde::de::{Deserialize, Deserializer, Error, MapAccess, SeqAccess, Visitor};

/// A fact as serde reads it.
struct FactDto {
    seq: u64,
    kind: String,
    key: String,
    cause: Option<String>,
    payload: serde_json::Value,
}

const FIELDS: &[&str] = &["seq", "type", "key", "cause", "payload"];

struct Field(usize);

struct FieldVisitor;

impl<'de> Visitor<'de> for FieldVisitor {
    type Value = Field;

    fn expecting(&self, formatter: &mut std::fmt::Formatter) -> std::fmt::Result {
        formatter.write_str("field identifier")
    }

    fn visit_str<E: Error>(self, name: &str) -> Result<Field, E> {
        match FIELDS.iter().position(|field| *field == name) {
            Some(at) => Ok(Field(at)),
            None => Err(E::unknown_field(name, FIELDS)),
        }
    }
}

impl<'de> Deserialize<'de> for Field {
    fn deserialize<D: Deserializer<'de>>(deserializer: D) -> Result<Field, D::Error> {
        deserializer.deserialize_identifier(FieldVisitor)
    }
}

struct FactVisitor;

impl<'de> Visitor<'de> for FactVisitor {
    type Value = FactDto;

    fn expecting(&self, formatter: &mut std::fmt::Formatter) -> std::fmt::Result {
        formatter.write_str("struct FactDto")
    }

    fn visit_seq<A: SeqAccess<'de>>(self, mut access: A) -> Result<FactDto, A::Error> {
        let short = |count| A::Error::invalid_length(count, &"struct FactDto with 5 elements");
        let seq = access.next_element()?.ok_or_else(|| short(0))?;
        let kind = access.next_element()?.ok_or_else(|| short(1))?;
        let key = access.next_element()?.ok_or_else(|| short(2))?;
        let cause = access.next_element()?.ok_or_else(|| short(3))?;
        let payload = access.next_element()?.ok_or_else(|| short(4))?;
        Ok(FactDto { seq, kind, key, cause, payload })
    }

    fn visit_map<A: MapAccess<'de>>(self, mut access: A) -> Result<FactDto, A::Error> {
        let mut seq: Option<u64> = None;
        let mut kind: Option<String> = None;
        let mut key: Option<String> = None;
        let mut cause: Option<Option<String>> = None;
        let mut payload: Option<serde_json::Value> = None;
        while let Some(Field(at)) = access.next_key()? {
            let twice = || A::Error::duplicate_field(FIELDS[at]);
            match at {
                0 if seq.is_some() => return Err(twice()),
                0 => seq = Some(access.next_value()?),
                1 if kind.is_some() => return Err(twice()),
                1 => kind = Some(access.next_value()?),
                2 if key.is_some() => return Err(twice()),
                2 => key = Some(access.next_value()?),
                3 if cause.is_some() => return Err(twice()),
                3 => cause = Some(access.next_value()?),
                _ if payload.is_some() => return Err(twice()),
                _ => payload = Some(access.next_value()?),
            }
        }
        Ok(FactDto {
            seq: seq.ok_or_else(|| A::Error::missing_field("seq"))?,
            kind: kind.ok_or_else(|| A::Error::missing_field("type"))?,
            key: key.ok_or_else(|| A::Error::missing_field("key"))?,
            cause: cause.unwrap_or(None),
            payload: payload.ok_or_else(|| A::Error::missing_field("payload"))?,
        })
    }
}

impl<'de> Deserialize<'de> for FactDto {
    fn deserialize<D: Deserializer<'de>>(deserializer: D) -> Result<FactDto, D::Error> {
        deserializer.deserialize_struct("FactDto", FIELDS, FactVisitor)
    }
}

/// Compares what the library makes of a line with what serde makes of it.
fn compare(line: &str) {
    match (parse_fact_json(line), serde_json::from_str::<FactDto>(line)) {
        (Ok(fact), Ok(read)) => {
            assert!(!read.kind.is_empty() && !read.key.is_empty(), "{line}");
            assert_eq!((fact.seq, fact.kind, fact.key), (read.seq, read.kind, read.key), "{line}");
            assert_eq!(fact.cause, read.cause, "{line}");
            assert_eq!(a3s_effect::json::to_value(&fact.payload), read.payload, "{line}");
        }
        (Err(ActorError::Schema(report)), Ok(read)) => {
            assert!(read.kind.is_empty() || read.key.is_empty(), "{line}: {report}");
            assert_eq!(report, "type and key are required", "{line}");
        }
        (Err(ActorError::Schema(report)), Err(error)) => {
            assert_eq!(report, error.to_string(), "{line}");
        }
        (other, read) => panic!("{line}: {:?} {}", other, read.is_ok()),
    }
}

const LINES: &[&str] = &[
    r#"{"seq":1,"type":"user.message","key":"m1","cause":null,"payload":{"text":"hi"}}"#,
    "{ \"payload\" : [1.5, {\"a\":[]}] ,\n\t\"cause\":\"infer:1:0\",\r\n \"key\":\"k\\u0041\\\"\" , \"type\":\"\u{e9}\u{1F600}\",\"seq\": 18446744073709551615 }\n",
    "[3,\"note\",\"k\",\n null , [true,\"x,]}\"] ] ",
    r#"{"seq":1,"type":"a","key":"b","payload":null}"#,
];

#[test]
fn reports_on_facts_are_exact() {
    for (line, report) in [
        ("null", "invalid type: null, expected struct FactDto at line 1 column 4"),
        ("", "EOF while parsing a value at line 1 column 0"),
        ("{}", "missing field `seq` at line 1 column 2"),
        (
            "{\"seq\":1,\"type\":\"a\",\n\"key\":\"b\",\"cause\":null }",
            "missing field `payload` at line 2 column 24",
        ),
        (
            r#"{"seq":-1,"type":"a","key":"b","cause":null,"payload":1}"#,
            "invalid value: integer `-1`, expected u64 at line 1 column 9",
        ),
        (
            r#"{"seq":1.5,"type":"a","key":"b","cause":null,"payload":1}"#,
            "invalid type: floating point `1.5`, expected u64 at line 1 column 10",
        ),
        (
            r#"{"seq":1,"type":"a","key":"b","cause":3,"payload":1}"#,
            "invalid type: integer `3`, expected a string at line 1 column 39",
        ),
        (
            r#"{"zeta":1,"seq":1,"alpha":1}"#,
            "unknown field `zeta`, expected one of `seq`, `type`, `key`, `cause`, `payload` at line 1 column 7",
        ),
        (r#"{"seq":1,"seq":1}"#, "duplicate field `seq` at line 1 column 14"),
        (r#"[1,"a"]"#, "invalid length 2, expected struct FactDto with 5 elements at line 1 column 7"),
        (r#"[1,"a","b",null,1,2]"#, "trailing characters at line 1 column 19"),
        // What comes first in the text is reported, be it no JSON behind that.
        (r#"{"seq":"x", nonsense"#, "invalid type: string \"x\", expected u64 at line 1 column 10"),
        (r#"{"seq":1,"type":"","key":"b","payload":1}"#, "type and key are required"),
    ] {
        let error = parse_fact_json(line).unwrap_err();
        assert_eq!(error, ActorError::Schema(report.to_string()), "{line}");
        compare(line);
    }
    // In a log, the place is that in the line.
    let log = format!("{}\n{{}}\n", LINES[0]);
    let error = parse_log(&log).err();
    assert_eq!(error, Some(ActorError::Schema("missing field `seq` at line 1 column 2".into())));
}

#[test]
fn facts_and_reports_are_those_of_serde() {
    for line in LINES {
        assert!(parse_fact_json(line).is_ok());
        assert_eq!(find_record_fault(line), None);
        compare(line);
        // Every start of the line, with and without something behind it.
        for (at, _) in line.char_indices() {
            for behind in ["", " ", "}", "]", ",", "\"", "x", ":", "1"] {
                compare(&format!("{}{}", &line[..at], behind));
            }
        }
        // Every character left out, or another one in its place.
        for (at, c) in line.char_indices() {
            let rest = &line[at + c.len_utf8()..];
            compare(&format!("{}{}", &line[..at], rest));
            for other in ["{", "}", "[", "]", ",", ":", "\"", "\\", "-", "0", ".", "e", "n", "\n", "null", "[]", "\"\""] {
                compare(&format!("{}{}{}", &line[..at], other, rest));
                compare(&format!("{}{}{}{}", &line[..at], other, c, rest));
            }
        }
    }
}

#[test]
fn values_of_every_type_stand_in_every_field() {
    let values = [
        "null", "true", "false", "0", "-0", "-7", "1.5", "1e400", "01", "1.", "18446744073709551616",
        "\"\"", "\"a\"", "\"\\q\"", "\"\n\"", "[]", "[1", "{}", "{\"a\":1}", "{\"a\"}", "nul", "tru", "x", "",
        "1x", "\"a\"x", "nullx", "[]x",
    ];
    for value in values {
        compare(value);
        compare(&format!(" {value} "));
        for at in 0..5 {
            let plain = ["1", "\"a\"", "\"b\"", "null", "{}"];
            let mut given: Vec<&str> = plain.to_vec();
            given[at] = value;
            compare(&format!("[{}]", given.join(",")));
            compare(&format!("[{} , 6]", given.join(" , ")));
            compare(&format!("[{} ,", given.join(",")));
            compare(&format!("[{},]", given.join(",")));
            let members: Vec<String> = FIELDS
                .iter()
                .zip(&given)
                .map(|(name, value)| format!("\"{name}\":{value}"))
                .collect();
            compare(&format!("{{{}}}", members.join(",")));
            compare(&format!("{{{},}}", members.join(",")));
            compare(&format!("{{{},\"more\" :1}}", members.join(",")));
            let turned: Vec<&str> = members.iter().rev().map(String::as_str).collect();
            compare(&format!("{{{}}}", turned.join(" ,\n")));
            compare(&format!("{{{},{}}}", members[at], members.join(",")));
            compare(&format!("{{{},{}}} tail", members[at], members[at]));
            let mut fewer = members.clone();
            fewer.remove(at);
            compare(&format!("{{{}\n}}", fewer.join(",")));
            compare(&format!("[{}]", given[..at].join(",")));
        }
    }
}

#[test]
fn deep_payloads_are_refused_as_serde_refuses_them() {
    for depth in 124..130 {
        let payload = format!("{}{}", "[".repeat(depth), "]".repeat(depth));
        compare(&format!("{{\"payload\":{payload},\"seq\":1,\"type\":\"a\",\"key\":\"b\"}}"));
        compare(&format!("{{\"payload\":{payload},\"more\":1}}"));
        compare(&format!("[1,\"a\",\"b\",null,{payload},2]"));
        compare(&payload);
    }
}

#[test]
fn names_are_judged_where_they_stand() {
    let text = b"{\"seq\" : 1}".as_slice();
    let none = vec![false; 5];
    let name = |name: &str| Ok((name.to_string(), 6));
    assert!(matches!(judge_name(text, 1, name("seq"), &none), (Step::Reached(8), 0)));
    let mut seen = none.clone();
    seen[0] = true;
    assert!(matches!(
        judge_name(text, 1, name("seq"), &seen),
        (Step::Fault(report), _) if report == "duplicate field `seq` at line 1 column 7"
    ));
    assert!(matches!(
        judge_name(text, 1, name("x"), &none),
        (Step::Fault(report), _) if report
            == "unknown field `x`, expected one of `seq`, `type`, `key`, `cause`, `payload` at line 1 column 7"
    ));
    assert!(matches!(
        judge_name(text, 1, Err("told".into()), &none),
        (Step::Fault(report), _) if report == "told"
    ));
    assert!(matches!(judge_name(b"{\"seq\" 1}", 1, name("seq"), &none), (Step::Broken, _)));
    assert!(matches!(judge_name(text, 1, Ok(("seq".into(), 1)), &none), (Step::Broken, _)));

    assert_eq!(place("here", b"a\nbc\nd", 4), "here at line 2 column 2");
    assert_eq!(find_closing_fault(b"1 ]", 1), None);
    assert_eq!(find_closing_fault(b"1,]", 1).unwrap(), "trailing comma at line 1 column 3");
    assert_eq!(find_closing_fault(b"1 2", 1).unwrap(), "trailing characters at line 1 column 3");
}
