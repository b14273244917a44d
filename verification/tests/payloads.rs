use a3s_effect::coding::{compaction_fact, denied_fact, model_fact, tool_fact};
use a3s_effect::json::{from_value, to_value};
use a3s_effect::json_text::{count_members, parse_json, print_json};
use a3s_effect::payload::{
    read_confirmation, read_decision, read_summary_payload, read_text_payload, read_tool_result,
    write_decision,
};
use a3s_effect::scheduler::{step, transitions_of, view_of, SchedulerState};
use a3s_effect::{
    answer_fact, confirm_fact, message_fact, CodingPhase, CodingTask, Fact, HarnessConfig, Json,
    ModelDecision, NewFact, ToolCall,
};

fn json(text: &str) -> Json {
    parse_json(text).unwrap()
}

fn stored(new: NewFact) -> Fact {
    Fact {
        seq: 1,
        kind: new.kind,
        key: new.key,
        cause: None,
        payload: new.payload,
    }
}

fn call(id: &str, confirm: bool) -> ToolCall {
    ToolCall {
        id: id.into(),
        name: "read".into(),
        args: json("{\"path\":\"src/lib.rs\",\"lines\":[1,2]}"),
        needs_confirmation: confirm,
        text: Some("plan".into()),
        reasoning: None,
    }
}

fn config(budget: u32, compact_after: usize) -> HarnessConfig {
    HarnessConfig::new(budget, compact_after, 8, 2, Vec::new(), Vec::new()).unwrap()
}

fn fold(facts: Vec<NewFact>, config: &HarnessConfig) -> SchedulerState {
    let mut state = SchedulerState::new();
    for fact in facts {
        state = step(state, &stored(fact), config);
    }
    state
}

#[test]
fn json_is_printed_and_read() {
    let text = "{\"a\":[1,-2,true,null,\"\\u0001\\\"\"],\"b\":{\"c\":1.5}}";
    assert_eq!(print_json(&json(text)), text);
    // Members come in the order of their names, and the last of two counts.
    assert_eq!(print_json(&json("{\"b\":1,\"a\":2,\"b\":3}")), "{\"a\":2,\"b\":3}");
    assert!(parse_json("{").is_err());
    assert!(!parse_json("").unwrap_err().is_empty());
    assert_eq!(count_members("{\"b\":1,\"a\":[2,3],\"b\":\",\"}"), 3);
    let value = to_value(&json(text));
    assert_eq!(value["b"]["c"], serde_json::Value::from(1.5));
    assert_eq!(from_value(value), json(text));
}

#[test]
fn values_are_the_same_where_serde_json_says_so() {
    assert_eq!(json("0.0"), json("-0.0"));
    assert_ne!(json("1"), json("1.0"));
    assert_ne!(json("{\"a\":1}"), json("{\"a\":2}"));
    assert_ne!(json("[1]"), json("[1,1]"));
    assert_eq!(json("{\"b\":1,\"a\":2}"), json("{\"a\":2,\"b\":1}"));
    assert_eq!(json("[{\"a\":[]}]").clone(), json("[{\"a\":[]}]"));
}

#[test]
fn decisions_round_trip() {
    let with_all = ToolCall {
        reasoning: Some("because".into()),
        ..call("t1", true)
    };
    let bare = ToolCall {
        text: None,
        ..call("t2", false)
    };
    for decision in [
        ModelDecision::Text { text: "hello".into() },
        ModelDecision::Tool { call: call("t1", true) },
        ModelDecision::Tool { call: with_all },
        ModelDecision::Tool { call: bare },
        ModelDecision::Question {
            question_id: "q1".into(),
            question: "Which module?".into(),
            allow_free_text: true,
            options: vec!["scheduler".into(), "".into()],
        },
    ] {
        let spelled = write_decision(&decision);
        assert_eq!(read_decision(&spelled).unwrap(), decision);
        assert_eq!(read_decision(&json(&print_json(&spelled))).unwrap(), decision);
    }
}

#[test]
fn decisions_are_spelled_exactly() {
    let text = write_decision(&ModelDecision::Text { text: "hi".into() });
    assert_eq!(print_json(&text), "{\"kind\":\"text\",\"text\":\"hi\"}");
    let tool = write_decision(&ModelDecision::Tool { call: call("t1", false) });
    assert_eq!(
        print_json(&tool),
        "{\"call\":{\"args\":{\"lines\":[1,2],\"path\":\"src/lib.rs\"},\"id\":\"t1\",\"name\":\"read\",\"needs_confirmation\":false,\"text\":\"plan\"},\"kind\":\"tool\"}"
    );
    let question = write_decision(&ModelDecision::Question {
        question_id: "q".into(),
        question: "?".into(),
        allow_free_text: false,
        options: vec!["a".into()],
    });
    assert_eq!(
        print_json(&question),
        "{\"allow_free_text\":false,\"kind\":\"question\",\"options\":[\"a\"],\"question\":\"?\",\"question_id\":\"q\"}"
    );
}

#[test]
fn older_decisions_are_read() {
    let question = read_decision(&json(
        "{\"kind\":\"question\",\"question_id\":\"q\",\"question\":\"?\",\"allow_free_text\":true}",
    ))
    .unwrap();
    assert!(matches!(question, ModelDecision::Question { options, .. } if options.is_empty()));
    let tool = read_decision(&json(
        "{\"kind\":\"tool\",\"call\":{\"id\":\"t\",\"name\":\"n\",\"args\":null,\"needs_confirmation\":false,\"extra\":1}}",
    ))
    .unwrap();
    assert!(matches!(tool, ModelDecision::Tool { call } if call.text.is_none() && call.reasoning.is_none()));
    // A record may also be spelled by position.
    let text = read_decision(&json("[\"text\",\"hi\"]")).unwrap();
    assert_eq!(text, ModelDecision::Text { text: "hi".into() });
}

#[test]
fn other_values_are_no_decisions() {
    for text in [
        "null",
        "\"text\"",
        "{}",
        "[]",
        "{\"kind\":\"nope\"}",
        "{\"kind\":1,\"text\":\"hi\"}",
        "{\"kind\":\"text\"}",
        "{\"kind\":\"text\",\"text\":null}",
        "[\"text\",\"hi\",1]",
        "{\"kind\":\"tool\"}",
        "{\"kind\":\"tool\",\"call\":{\"id\":\"t\",\"name\":\"n\",\"needs_confirmation\":false}}",
        "{\"kind\":\"tool\",\"call\":{\"id\":\"t\",\"name\":\"n\",\"args\":1,\"needs_confirmation\":\"no\"}}",
        "{\"kind\":\"question\",\"question_id\":\"q\",\"question\":\"?\",\"allow_free_text\":true,\"options\":null}",
        "{\"kind\":\"question\",\"question_id\":\"q\",\"question\":\"?\",\"allow_free_text\":true,\"options\":[1]}",
    ] {
        assert!(read_decision(&json(text)).is_err(), "{text}");
    }
}

#[test]
fn the_facts_of_callers_are_read_back() {
    let message = message_fact("m1", "hi");
    assert_eq!((message.kind.as_str(), message.key.as_str()), ("user.message", "m1"));
    assert_eq!(print_json(&message.payload), "{\"text\":\"hi\"}");
    assert_eq!(read_text_payload(&message.payload).unwrap(), "hi");

    let answer = answer_fact("a1", "yes");
    assert_eq!((answer.kind.as_str(), answer.key.as_str()), ("question.answered", "a1"));
    assert_eq!(read_text_payload(&answer.payload).unwrap(), "yes");

    let confirm = confirm_fact("c1", "t1", true);
    assert_eq!(confirm.kind, "confirmation.answered");
    assert_eq!(print_json(&confirm.payload), "{\"approved\":true,\"tool_call_id\":\"t1\"}");
    let read = read_confirmation(&confirm.payload).ok().unwrap();
    assert_eq!((read.tool_call_id.as_str(), read.approved), ("t1", true));
}

#[test]
fn the_facts_of_services_are_read_back() {
    let done = compaction_fact(12, "short");
    assert_eq!((done.kind.as_str(), done.key.as_str()), ("compaction.done", "compaction:12"));
    assert_eq!(read_summary_payload(&done.payload).unwrap(), "short");

    let decided = model_fact(3, 10, &ModelDecision::Text { text: "x".into() });
    assert_eq!((decided.kind.as_str(), decided.key.as_str()), ("model.turn", "model:3:10"));

    let ran = tool_fact(&call("t1", false), &Json::Text("plain".into()));
    assert_eq!((ran.kind.as_str(), ran.key.as_str()), ("tool.result", "tool-result:t1"));
    assert_eq!(
        print_json(&ran.payload),
        "{\"ok\":true,\"output\":\"plain\",\"toolCallId\":\"t1\"}"
    );
    let ran = tool_fact(&call("t1", false), &json("{\"n\":1}"));
    let read = read_tool_result(&ran.payload).ok().unwrap();
    assert_eq!((read.ok, read.output.as_str()), (true, "{\"n\":1}"));

    let denied = denied_fact("t9");
    assert_eq!((denied.kind.as_str(), denied.key.as_str()), ("budget.denied", "budget-denied:t9"));
    assert_eq!(print_json(&denied.payload), "{\"toolCallId\":\"t9\"}");
}

#[test]
fn payloads_of_the_wrong_shape_are_reported() {
    assert!(read_text_payload(&json("{}")).is_err());
    assert!(read_text_payload(&json("{\"text\":1}")).is_err());
    assert!(read_text_payload(&json("3")).is_err());
    assert_eq!(read_text_payload(&json("[\"hi\"]")).unwrap(), "hi");
    assert!(read_text_payload(&json("[\"hi\",\"more\"]")).is_err());
    assert!(read_summary_payload(&json("{\"text\":\"x\"}")).is_err());
    assert!(read_confirmation(&json("{\"tool_call_id\":\"t\"}")).is_err());
    assert!(read_confirmation(&json("{\"approved\":true}")).is_err());
    assert!(read_tool_result(&json("{\"ok\":true}")).is_err());
    assert!(read_tool_result(&json("{\"ok\":1,\"output\":\"x\"}")).is_err());
}

#[test]
fn reports_on_payloads_are_exact() {
    for (text, report) in [
        ("null", "invalid type: null, expected struct TextPayload"),
        ("\"a\\n\"", "invalid type: string \"a\\n\", expected struct TextPayload"),
        ("{}", "missing field `text`"),
        ("{\"text\":false}", "invalid type: boolean `false`, expected a string"),
        ("{\"text\":-3}", "invalid type: integer `-3`, expected a string"),
        ("{\"text\":2.5}", "invalid type: floating point `2.5`, expected a string"),
        ("{\"text\":[]}", "invalid type: sequence, expected a string"),
        ("{\"text\":{}}", "invalid type: map, expected a string"),
        ("[]", "invalid length 0, expected struct TextPayload with 1 element"),
        ("[\"a\",\"b\"]", "invalid length 2, expected fewer elements in array"),
    ] {
        assert_eq!(read_text_payload(&json(text)), Err(report.to_string()), "{text}");
    }
    for (text, report) in [
        ("true", "invalid type: boolean `true`, expected struct SummaryPayload"),
        ("{\"text\":\"x\"}", "missing field `summary`"),
        ("[]", "invalid length 0, expected struct SummaryPayload with 1 element"),
    ] {
        assert_eq!(read_summary_payload(&json(text)), Err(report.to_string()), "{text}");
    }
    for (text, report) in [
        ("7", "invalid type: integer `7`, expected struct ConfirmationPayload"),
        ("{}", "missing field `tool_call_id`"),
        ("{\"tool_call_id\":\"t\"}", "missing field `approved`"),
        // What is there is read before what is absent is reported.
        ("{\"approved\":\"yes\"}", "invalid type: string \"yes\", expected a boolean"),
        (
            "{\"tool_call_id\":1,\"approved\":2}",
            "invalid type: integer `2`, expected a boolean",
        ),
        ("[\"t\"]", "invalid length 1, expected struct ConfirmationPayload with 2 elements"),
        ("[\"t\",true,1]", "invalid length 3, expected fewer elements in array"),
    ] {
        assert_eq!(read_confirmation(&json(text)).err(), Some(report.to_string()), "{text}");
    }
    for (text, report) in [
        ("1.5", "invalid type: floating point `1.5`, expected struct ToolResultPayload"),
        ("{\"output\":\"x\"}", "missing field `ok`"),
        ("{\"ok\":true}", "missing field `output`"),
        ("{\"ok\":null,\"output\":1}", "invalid type: null, expected a boolean"),
        ("[true]", "invalid length 1, expected struct ToolResultPayload with 2 elements"),
    ] {
        assert_eq!(read_tool_result(&json(text)).err(), Some(report.to_string()), "{text}");
    }
}

#[test]
fn reports_on_decisions_are_exact() {
    for (text, report) in [
        ("null", "invalid type: null, expected internally tagged enum ModelDecision"),
        ("{}", "missing field `kind`"),
        ("[]", "missing field `kind`"),
        (
            "{\"kind\":\"nope\"}",
            "unknown variant `nope`, expected one of `text`, `tool`, `question`",
        ),
        ("{\"kind\":[]}", "invalid type: sequence, expected variant identifier"),
        ("{\"kind\":\"text\"}", "missing field `text`"),
        ("{\"kind\":\"text\",\"text\":1}", "invalid type: integer `1`, expected a string"),
        (
            "[\"text\"]",
            "invalid length 0, expected struct variant ModelDecision::Text with 1 element",
        ),
        ("[\"text\",\"a\",\"b\"]", "invalid length 2, expected 1 element in sequence"),
        ("{\"kind\":\"tool\"}", "missing field `call`"),
        (
            "{\"kind\":\"tool\",\"call\":\"read\"}",
            "invalid type: string \"read\", expected struct ToolCall",
        ),
        (
            "{\"kind\":\"tool\",\"call\":{\"id\":\"t\",\"name\":\"n\"}}",
            "missing field `args`",
        ),
        (
            "{\"kind\":\"tool\",\"call\":{\"text\":1}}",
            "invalid type: integer `1`, expected a string",
        ),
        (
            "{\"kind\":\"tool\",\"call\":[\"t\",\"n\"]}",
            "invalid length 2, expected struct ToolCall with 6 elements",
        ),
        (
            "{\"kind\":\"question\",\"question\":\"?\"}",
            "missing field `question_id`",
        ),
        (
            "{\"kind\":\"question\",\"options\":[\"a\",null]}",
            "invalid type: null, expected a string",
        ),
        (
            "{\"kind\":\"question\",\"options\":{}}",
            "invalid type: map, expected a sequence",
        ),
        (
            "[\"question\",\"q\",\"?\"]",
            "invalid length 2, expected struct variant ModelDecision::Question with 4 elements",
        ),
        (
            "[\"question\",\"q\",\"?\",true,[],1]",
            "invalid length 5, expected 4 elements in sequence",
        ),
    ] {
        assert_eq!(read_decision(&json(text)).err(), Some(report.to_string()), "{text}");
    }
    // The last fields of a call and the options of a question may be absent.
    assert!(read_decision(&json("[\"question\",\"q\",\"?\",true]")).is_ok());
    assert!(read_decision(&json("[\"tool\",[\"t\",\"n\",1,false]]")).is_ok());
}

#[test]
fn reports_are_those_of_serde() {
    for text in [
        "null", "true", "0", "-7", "18446744073709551615", "18446744073709551616", "0.1", "-0.0",
        "1e100", "2.5e-9", "[]", "[1]", "{}", "{\"a\":1}", "\"a\\\"\\u0007\u{e9}\"",
    ] {
        let value = json(text);
        let named = |name: &str| json(&format!("{{\"{name}\":{text}}}"));
        assert_eq!(
            read_text_payload(&named("text")),
            serde_json::from_value::<String>(to_value(&value)).map_err(|error| error.to_string()),
        );
        assert_eq!(
            read_confirmation(&json(&format!("{{\"approved\":{text},\"tool_call_id\":\"t\"}}")))
                .map(|answer| answer.approved),
            serde_json::from_value::<bool>(to_value(&value)).map_err(|error| error.to_string()),
        );
        let call = format!(
            "[\"tool\",[\"t\",\"n\",1,false,{text}]]"
        );
        assert_eq!(
            read_decision(&json(&call)).map(|decision| match decision {
                ModelDecision::Tool { call } => call.text,
                _ => panic!("a tool call"),
            }),
            serde_json::from_value::<Option<String>>(to_value(&value))
                .map_err(|error| error.to_string()),
        );
        let question = format!("[\"question\",\"q\",\"?\",true,{text}]");
        assert_eq!(
            read_decision(&json(&question)).map(|decision| match decision {
                ModelDecision::Question { options, .. } => options,
                _ => panic!("a question"),
            }),
            serde_json::from_value::<Vec<String>>(to_value(&value))
                .map_err(|error| error.to_string()),
        );
    }
    assert_eq!(
        read_text_payload(&json("[\"a\",\"b\",\"c\"]")).err(),
        serde_json::from_value::<(String,)>(to_value(&json("[\"a\",\"b\",\"c\"]")))
            .err()
            .map(|error| error.to_string()),
    );
}

#[test]
fn a_misread_payload_is_told() {
    let config = config(2, 10_000);
    let wrong = NewFact {
        kind: "model.turn".into(),
        key: "k".into(),
        payload: json("{\"kind\":\"nope\"}"),
    };
    let state = fold(vec![message_fact("m1", "hi"), wrong], &config);
    let told = state.schema_error.unwrap();
    assert!(told.contains("unknown variant `nope`, expected one of `text`, `tool`, `question`"));
}

#[test]
fn a_misread_payload_ends_the_turn() {
    let config = config(2, 10_000);
    for kind in ["user.message", "compaction.done", "tool.result", "question.answered", "model.turn"] {
        let state = fold(
            vec![NewFact { kind: kind.into(), key: "k".into(), payload: Json::Null }],
            &config,
        );
        assert_eq!(state.phase, CodingPhase::Done, "{kind}");
        assert!(state.schema_error.is_some(), "{kind}");
        assert!(transitions_of(&state, &config).is_empty());
    }
    // Without a call that waits, an answer is not even read.
    let state = fold(
        vec![NewFact { kind: "confirmation.answered".into(), key: "k".into(), payload: Json::Null }],
        &config,
    );
    assert_eq!(state.phase, CodingPhase::Idle);
}

#[test]
fn the_phases_of_a_turn() {
    let config = config(1, 10_000);
    let ask = message_fact("m1", "hi");
    let state = fold(vec![ask.clone()], &config);
    assert_eq!((state.turn, state.cycle, state.phase), (1, 0, CodingPhase::Infer));
    assert_eq!(state.messages, vec!["user\nhi"]);
    let enabled = transitions_of(&state, &config);
    assert_eq!(enabled[0].key, "infer:1:0");
    assert!(matches!(enabled[0].run, CodingTask::Complete { retries: 1, turn: 1, cycle: 0, .. }));

    let wants = model_fact(1, 0, &ModelDecision::Tool { call: call("t1", true) });
    let state = fold(vec![ask.clone(), wants.clone()], &config);
    assert_eq!(state.phase, CodingPhase::Confirm);
    let view = view_of(&state);
    assert_eq!(view.pending_confirmation.unwrap().tool_call_id, "t1");
    assert!(transitions_of(&state, &config).is_empty());

    // The answer to another call changes nothing.
    let other = confirm_fact("c0", "t0", true);
    let state = fold(vec![ask.clone(), wants.clone(), other], &config);
    assert_eq!(state.phase, CodingPhase::Confirm);

    let yes = confirm_fact("c1", "t1", true);
    let state = fold(vec![ask.clone(), wants.clone(), yes.clone()], &config);
    assert_eq!(state.phase, CodingPhase::Tool);
    let enabled = transitions_of(&state, &config);
    assert_eq!(enabled[0].key, "tool:t1");

    let ran = tool_fact(&call("t1", true), &Json::Text("out".into()));
    let state = fold(vec![ask.clone(), wants.clone(), yes.clone(), ran.clone()], &config);
    assert_eq!((state.phase, state.cycle, state.tool_runs), (CodingPhase::Infer, 1, 1));

    let more = model_fact(1, 1, &ModelDecision::Tool { call: call("t2", true) });
    let state = fold(vec![ask, wants, yes, ran, more], &config);
    assert_eq!(state.phase, CodingPhase::Deny);
    assert_eq!(transitions_of(&state, &config)[0].key, "budget:t2");
}

#[test]
fn a_failed_tool_result_costs_no_budget() {
    let config = config(1, 10_000);
    let failed = NewFact {
        kind: "tool.result".into(),
        key: "r".into(),
        payload: json("{\"ok\":false,\"output\":\"no\"}"),
    };
    let state = fold(vec![message_fact("m1", "hi"), failed], &config);
    assert_eq!((state.tool_runs, state.cycle), (0, 1));
}

#[test]
fn a_conversation_is_compacted_once_in_a_turn() {
    // "user\nhello" has ten bytes.
    let exact = config(2, 10);
    let state = fold(vec![message_fact("m1", "hello")], &exact);
    assert_eq!(state.size(), 10);
    assert_eq!(state.phase, CodingPhase::Compact);
    assert_eq!(transitions_of(&state, &exact)[0].key, "compact:1");
    let above = config(2, 11);
    assert_eq!(fold(vec![message_fact("m1", "hello")], &above).phase, CodingPhase::Infer);

    let summary = compaction_fact(1, "a long summary");
    let state = fold(vec![message_fact("m1", "hello"), summary.clone()], &exact);
    assert_eq!(state.phase, CodingPhase::Infer);
    assert_eq!(state.summary, "a long summary");
    assert!(state.messages.is_empty());
    // In the same turn there is no second compaction; in the next one there is, and
    // the summary goes first.
    let ran = tool_fact(&call("t1", false), &Json::Text("out".into()));
    let state = fold(vec![message_fact("m1", "hello"), summary.clone(), ran.clone()], &exact);
    assert_eq!(state.phase, CodingPhase::Infer);
    let state = fold(
        vec![message_fact("m1", "hello"), summary, ran, message_fact("m2", "go")],
        &exact,
    );
    assert_eq!(state.phase, CodingPhase::Compact);
    let enabled = transitions_of(&state, &exact);
    assert_eq!(enabled[0].key, "compact:2");
    match &enabled[0].run {
        CodingTask::Compact { messages, turn } => {
            assert_eq!(messages, &vec!["a long summary", "tool\nout", "user\ngo"]);
            assert_eq!(*turn, 2);
        }
        _ => panic!("a compaction"),
    }
}

#[test]
fn sizes_are_counted_in_bytes() {
    let config = config(2, 10_000);
    let state = fold(vec![message_fact("m1", "\u{e9}\u{1F600}")], &config);
    assert_eq!(state.size(), 5 + 2 + 4);
}

#[test]
fn facts_of_other_kinds_are_passed_over() {
    let config = config(2, 10_000);
    let note = NewFact { kind: "note".into(), key: "n".into(), payload: Json::Null };
    let state = fold(vec![message_fact("m1", "hi"), note], &config);
    assert_eq!((state.turn, state.phase), (1, CodingPhase::Infer));
}

#[test]
fn every_turn_and_cycle_has_keys_of_its_own() {
    let config = config(9, 10_000);
    let ran = tool_fact(&call("t1", false), &Json::Text("out".into()));
    let mut facts = vec![message_fact("m1", "hi")];
    let mut keys = Vec::new();
    for next in [ran.clone(), answer_fact("a1", "x"), message_fact("m2", "y"), ran] {
        keys.push(transitions_of(&fold(facts.clone(), &config), &config).remove(0).key);
        facts.push(next);
    }
    keys.push(transitions_of(&fold(facts, &config), &config).remove(0).key);
    assert_eq!(keys, vec!["infer:1:0", "infer:1:1", "infer:1:2", "infer:2:0", "infer:2:1"]);
}
