use a3s_effect::actor::{span_name, Next, Progress};
use a3s_effect::fact::{digest_facts, fact_line};
use a3s_effect::json_text::parse_json;
use a3s_effect::log::numbers_suffice;
use a3s_effect::log_file::{log_file_name, parse_log, plan_append, split_lines, write_log};
use a3s_effect::{
    component, cut_log, parse_fact_json, Actor, ActorError, ErasedComponent, Exit, Fact,
    HarnessConfig, Json, JsonObject, LogStore, MemoryLog, NewFact, Settlement, Transition,
};

fn object(pairs: Vec<(&str, Json)>) -> Json {
    let mut members = JsonObject::new();
    for (name, value) in pairs {
        members.insert(name.to_string(), value);
    }
    Json::Object(members)
}

fn said(text: &str) -> Json {
    object(vec![("text", Json::Text(text.to_string()))])
}

fn fact(seq: u64, kind: &str, key: &str, cause: Option<&str>, payload: Json) -> Fact {
    Fact {
        seq,
        kind: kind.to_string(),
        key: key.to_string(),
        cause: cause.map(str::to_string),
        payload,
    }
}

fn new_fact(kind: &str, key: &str, payload: Json) -> NewFact {
    NewFact {
        kind: kind.to_string(),
        key: key.to_string(),
        payload,
    }
}

fn message(text: &str) -> NewFact {
    new_fact("user.message", "m1", said(text))
}

/// A log whose threads are texts, as files hold them.
struct TextLog {
    files: Vec<(String, String)>,
}

impl TextLog {
    fn new() -> TextLog {
        TextLog { files: Vec::new() }
    }

    fn text(&self, thread_id: &str) -> String {
        let name = log_file_name(thread_id);
        self.files
            .iter()
            .find(|(file, _)| *file == name)
            .map(|(_, text)| text.clone())
            .unwrap_or_default()
    }
}

impl LogStore for TextLog {
    fn read(&self, thread_id: &str) -> Result<Vec<Fact>, ActorError> {
        a3s_effect::log::valid_thread(thread_id)?;
        parse_log(&self.text(thread_id))
    }

    fn append(
        &mut self,
        thread_id: &str,
        facts: &[NewFact],
        cause: Option<&str>,
    ) -> Result<Vec<Fact>, ActorError> {
        a3s_effect::log::valid_thread(thread_id)?;
        let current = parse_log(&self.text(thread_id))?;
        assert!(numbers_suffice(&current, facts));
        let plan = plan_append(&current, facts, cause)?;
        let name = log_file_name(thread_id);
        if !plan.added.is_empty() {
            match self.files.iter_mut().find(|(file, _)| *file == name) {
                Some((_, text)) => text.push_str(&plan.added),
                None => self.files.push((name, plan.added)),
            }
        }
        Ok(plan.next)
    }
}

#[test]
fn parse_fact_json_round_trips_and_rejects_bad_shapes() {
    let original = fact(1, "user.message", "m1", None, said("hi"));
    let raw = fact_line(&original);
    assert!(raw.contains("\"type\":\"user.message\""));
    assert_eq!(parse_fact_json(&raw).unwrap(), original);

    let unknown = parse_fact_json(
        r#"{"seq":1,"type":"user.message","key":"m1","cause":null,"payload":{},"extra":1}"#,
    )
    .unwrap_err();
    assert!(matches!(unknown, ActorError::Schema(_)));

    let empty_type =
        parse_fact_json(r#"{"seq":1,"type":"","key":"m1","cause":null,"payload":{}}"#).unwrap_err();
    assert_eq!(
        empty_type,
        ActorError::Schema("type and key are required".into())
    );

    let empty_key =
        parse_fact_json(r#"{"seq":1,"type":"user.message","key":"","cause":null,"payload":{}}"#)
            .unwrap_err();
    assert_eq!(
        empty_key,
        ActorError::Schema("type and key are required".into())
    );
}

#[test]
fn the_line_of_a_fact_is_exact() {
    let one = fact(7, "note", "k\"1", Some("infer:1:0"), said("a\nb"));
    let line = fact_line(&one);
    assert_eq!(
        line,
        "{\"seq\":7,\"type\":\"note\",\"key\":\"k\\\"1\",\"cause\":\"infer:1:0\",\"payload\":{\"text\":\"a\\nb\"}}"
    );
    assert_eq!(parse_fact_json(&line).unwrap(), one);
}

#[test]
fn a_fact_is_also_read_by_position() {
    let read = parse_fact_json(r#"[3,"note","k",null,[1,true]]"#).unwrap();
    assert_eq!(read.seq, 3);
    assert_eq!(read.cause, None);
    assert!(parse_fact_json(r#"[3,"note","k",null]"#).is_err());
    assert!(parse_fact_json(r#"[3,"note","k",null,1,2]"#).is_err());
}

#[test]
fn fields_of_a_fact_are_checked() {
    for line in [
        r#"{"type":"a","key":"b","cause":null,"payload":1}"#,
        r#"{"seq":-1,"type":"a","key":"b","cause":null,"payload":1}"#,
        r#"{"seq":1.5,"type":"a","key":"b","cause":null,"payload":1}"#,
        r#"{"seq":1,"type":2,"key":"b","cause":null,"payload":1}"#,
        r#"{"seq":1,"type":"a","key":"b","cause":3,"payload":1}"#,
        r#"{"seq":1,"type":"a","key":"b","cause":null}"#,
        r#"{"seq":1,"seq":1,"type":"a","key":"b","cause":null,"payload":1}"#,
        r#""text""#,
        "{",
    ] {
        assert!(matches!(parse_fact_json(line), Err(ActorError::Schema(_))), "{line}");
    }
    // An absent cause reads as none.
    let read = parse_fact_json(r#"{"seq":1,"type":"a","key":"b","payload":null}"#).unwrap();
    assert_eq!(read.cause, None);
    assert_eq!(read.payload, Json::Null);
}

fn assert_append_rules(log: &mut dyn LogStore) {
    let first = log
        .append("thread-1", &[message("hi")], None)
        .expect("append");
    let second = log
        .append("thread-1", &[message("hi")], None)
        .expect("replay");
    assert_eq!(first, second);
    let stored = log.read("thread-1").unwrap();
    assert_eq!(stored.len(), 1);
    assert_eq!(stored[0].seq, 1);
    assert_eq!(stored[0].payload, said("hi"));

    let error = log.append("thread-1", &[message("no")], None).unwrap_err();
    assert_eq!(error, ActorError::DuplicateFact { key: "m1".into() });
    let stored = log.read("thread-1").unwrap();
    assert_eq!(stored.len(), 1);
    assert_eq!(stored[0].payload, said("hi"));
}

fn assert_bad_thread_ids(log: &mut dyn LogStore) {
    let long = "a".repeat(129);
    let ids = ["", long.as_str(), "a/b"];
    for id in ids {
        let append_error = log.append(id, &[message("hi")], None).unwrap_err();
        let read_error = log.read(id).unwrap_err();
        assert!(
            matches!(append_error, ActorError::BadThreadId { ref thread_id } if thread_id == id)
        );
        assert!(matches!(read_error, ActorError::BadThreadId { ref thread_id } if thread_id == id));
    }
}

#[test]
fn identical_append_is_a_noop_and_changed_payload_is_duplicate() {
    let mut memory = MemoryLog::new();
    assert_append_rules(&mut memory);
    assert_bad_thread_ids(&mut MemoryLog::new());

    let mut file = TextLog::new();
    file.append("thread-1", &[message("hi")], None).unwrap();
    let before = file.text("thread-1");
    assert_append_rules(&mut file);
    assert_eq!(file.text("thread-1"), before);

    let mut bad = TextLog::new();
    assert_bad_thread_ids(&mut bad);
    assert!(bad.files.is_empty());
}

#[test]
fn thread_ids_of_every_accepted_character_are_accepted() {
    let mut log = MemoryLog::new();
    let long = "z".repeat(128);
    for id in ["a", "A9_.:-", ".", long.as_str()] {
        assert!(log.append(id, &[message("hi")], None).is_ok());
        assert_eq!(log.read(id).unwrap().len(), 1);
    }
    for id in ["a b", "\u{e9}", "a\\b", "a\n"] {
        assert!(log.read(id).is_err());
    }
    assert!(log.read("never").unwrap().is_empty());
}

#[test]
fn appended_facts_are_numbered_and_carry_their_cause() {
    let mut log = MemoryLog::new();
    log.append(
        "t",
        &[new_fact("a", "k1", Json::Null), new_fact("b", "k2", Json::Bool(true))],
        None,
    )
    .unwrap();
    let log_now = log
        .append("t", &[new_fact("c", "k3", Json::Null)], Some("infer:1:0"))
        .unwrap();
    let seqs: Vec<u64> = log_now.iter().map(|fact| fact.seq).collect();
    assert_eq!(seqs, vec![1, 2, 3]);
    assert_eq!(log_now[0].cause, None);
    assert_eq!(log_now[2].cause.as_deref(), Some("infer:1:0"));
    // Threads do not see each other.
    assert!(log.read("u").unwrap().is_empty());
}

#[test]
fn a_batch_that_is_partly_there_is_refused() {
    let mut log = MemoryLog::new();
    log.append("t", &[new_fact("a", "k1", Json::Null)], None).unwrap();
    let error = log
        .append(
            "t",
            &[new_fact("a", "k0", Json::Null), new_fact("a", "k1", Json::Null)],
            None,
        )
        .unwrap_err();
    assert_eq!(error, ActorError::DuplicateFact { key: "k1".into() });
    assert_eq!(log.read("t").unwrap().len(), 1);
    // The same key with another kind is taken, too.
    let error = log.append("t", &[new_fact("b", "k1", Json::Null)], None).unwrap_err();
    assert_eq!(error, ActorError::DuplicateFact { key: "k1".into() });
}

#[test]
fn sequence_numbers_can_run_out() {
    let last = fact(u64::MAX, "a", "k", None, Json::Null);
    assert!(!numbers_suffice(&[last.clone()], &[new_fact("b", "k2", Json::Null)]));
    assert!(numbers_suffice(&[last.clone()], &[new_fact("a", "k", Json::Null)]));
    assert!(numbers_suffice(&[last], &[new_fact("b", "k", Json::Null)]));
}

#[test]
fn the_text_of_a_log_gives_its_facts_back() {
    let facts = vec![
        fact(1, "user.message", "m1", None, said("hi\r\nthere")),
        fact(2, "model.turn", "model:1:0", Some("infer:1:0"), said("\u{1F600}")),
    ];
    let text = write_log(&facts);
    assert_eq!(text.matches('\n').count(), 2);
    assert_eq!(parse_log(&text).unwrap(), facts);
    // Writing further facts behind a log gives the log with those facts.
    let refused = plan_append(&facts, &[message("more")], Some("x")).err();
    assert_eq!(refused, Some(ActorError::DuplicateFact { key: "m1".into() }));
    let plan = plan_append(&facts, &[new_fact("n", "k9", Json::Null)], Some("x"))
        .ok()
        .unwrap();
    assert_eq!(parse_log(&(text.clone() + &plan.added)).unwrap(), plan.next);
    assert_eq!(plan.next.len(), 3);
    // An append that changes nothing writes nothing.
    let same = plan_append(&facts, &[message("hi\r\nthere")], None).ok().unwrap();
    assert_eq!(same.added, "");
    assert_eq!(same.next, facts);
}

#[test]
fn fractions_survive_the_file() {
    for text in ["1.5", "0.1", "-0.0", "1e100", "2.5e-9", "[0.3,{\"a\":1.0}]"] {
        let payload = parse_json(text).unwrap();
        let mut log = TextLog::new();
        let written = log.append("t", &[new_fact("n", "k", payload.clone())], None).unwrap();
        assert_eq!(log.read("t").unwrap(), written, "{text}");
        assert_eq!(written[0].payload, payload);
        assert_eq!(parse_fact_json(&fact_line(&written[0])).unwrap(), written[0]);
    }
}

#[test]
fn what_is_written_behind_a_file_is_read_behind_its_facts() {
    // Nobody wrote this file through the log: a fact by position, a fact in another
    // order of its fields, empty lines and a carriage return.
    let file = "\n[4,\"note\",\"k1\",null,1.5]\r\n\n{\"payload\":{}, \"key\":\"k2\",\"type\":\"note\",\"seq\":9}\n";
    let current = parse_log(file).unwrap();
    assert_eq!(current.len(), 2);
    let plan = plan_append(&current, &[new_fact("n", "k3", said("hi"))], Some("x"))
        .ok()
        .unwrap();
    let read = parse_log(&(file.to_string() + &plan.added)).unwrap();
    assert_eq!(read, plan.next);
    assert_eq!(read[..2], current[..]);
    assert_eq!(read[2], fact(10, "n", "k3", Some("x"), said("hi")));
    // Behind a line that has not ended, the added line is no line of its own.
    let open = file.trim_end();
    assert_eq!(parse_log(open).unwrap(), current);
    assert!(parse_log(&(open.to_string() + &plan.added)).is_err());
}

#[test]
fn lines_end_at_breaks() {
    assert_eq!(split_lines(""), Vec::<String>::new());
    assert_eq!(split_lines("a\nb"), vec!["a", "b"]);
    assert_eq!(split_lines("a\r\nb\r"), vec!["a", "b\r"]);
    assert_eq!(split_lines("\n\r\r\n"), vec!["", "\r"]);
    let line = fact_line(&fact(1, "a", "k", None, Json::Null));
    let text = format!("\n{line}\r\n\n");
    assert_eq!(parse_log(&text).unwrap().len(), 1);
    assert!(parse_log(&format!("{line}\n{{\n{line}")).is_err());
}

#[test]
fn cut_log_digest_changes_with_seq_type_key_cause_and_payload() {
    let empty = cut_log(&[]);
    let empty_again = cut_log(&[]);
    assert_eq!(empty.seq, 0);
    assert_eq!(empty_again.seq, 0);
    assert_eq!(empty.digest, empty_again.digest);

    let base = fact(1, "user.message", "m1", None, said("hi"));
    let first = cut_log(&[base.clone()]);
    let second = cut_log(&[base.clone()]);
    assert_eq!(first.digest, second.digest);
    assert_eq!(first.seq, base.seq);

    let variants = [
        fact(2, "user.message", "m1", None, said("hi")),
        fact(1, "note", "m1", None, said("hi")),
        fact(1, "user.message", "m2", None, said("hi")),
        fact(1, "user.message", "m1", Some("infer:1:0"), said("hi")),
        fact(1, "user.message", "m1", None, said("no")),
    ];
    for variant in variants {
        assert_ne!(cut_log(&[variant]).digest, first.digest);
    }
}

#[test]
fn payloads_that_differ_have_other_digests() {
    let texts = ["1", "1.0", "\"1\"", "[1]", "{\"a\":0.1}", "{\"a\":0.2}", "{}", "[]", "null"];
    let mut digests: Vec<String> = texts
        .iter()
        .map(|text| cut_log(&[fact(1, "n", "k", None, parse_json(text).unwrap())]).digest)
        .collect();
    digests.sort();
    digests.dedup();
    assert_eq!(digests.len(), texts.len());
}

#[test]
fn digests_are_exact() {
    // The digest of no bytes at all.
    assert_eq!(
        digest_facts(&[]),
        "e3b0c44298fc1c149afbf4c8996fb92427ae41e4649b934ca495991b7852b855"
    );
    let mut hashed = Vec::new();
    hashed.extend_from_slice(b"1user.messagem1infer:1:0{\"text\":\"hi\"}\xff");
    let direct = <sha2::Sha256 as sha2::Digest>::digest(&hashed);
    let mut expected = String::new();
    for byte in direct.iter() {
        expected.push_str(&format!("{byte:02x}"));
    }
    let one = fact(1, "user.message", "m1", Some("infer:1:0"), said("hi"));
    assert_eq!(digest_facts(&[one]), expected);
}

#[test]
fn harness_config_rejects_zero_model_attempts() {
    let error = HarnessConfig::new(1, 10, 8, 0, Vec::new(), Vec::new()).unwrap_err();
    assert_eq!(
        error,
        ActorError::Config("model_attempts must be at least 1".into())
    );
}

fn run<R: 'static>(
    actor: &Actor<R, ()>,
    log: &mut MemoryLog,
    thread_id: &str,
    limit: u32,
    calls: &mut usize,
    perform: fn(&R) -> Vec<NewFact>,
) -> Result<Settlement<()>, Exit<ActorError>> {
    let mut progress = Progress::new(limit);
    loop {
        let facts = log.read(thread_id)?;
        let (kept, transition) = match progress.decide(actor, facts)? {
            Next::Settled(settlement) => return Ok(settlement),
            Next::Perform { progress, transition } => (progress, transition),
        };
        progress = kept;
        *calls += 1;
        let produced = progress.performed(Ok(perform(&transition.run)), Vec::new())?;
        let appended = log.append(thread_id, &produced, Some(&transition.key));
        progress.appended(appended)?;
    }
}

fn spin_actor() -> Actor<usize, ()> {
    let part: ErasedComponent<usize, ()> = component(
        || 0usize,
        |count: usize, _fact: &Fact| count + 1,
        |count: &usize| {
            (
                (),
                vec![Transition {
                    key: format!("spin:{count}"),
                    run: *count,
                }],
            )
        },
    );
    Actor::new("spin", vec![part], |_views: Vec<()>| ())
}

fn tick(n: &usize) -> Vec<NewFact> {
    vec![new_fact("tick", &format!("tick:{n}"), object(vec![]))]
}

#[test]
fn resume_step_limit_stops_before_the_next_fresh_key() {
    let mut calls = 0;
    let actor = spin_actor();
    let mut log = MemoryLog::new();
    let error = run(&actor, &mut log, "thread-1", 1, &mut calls, tick);
    assert!(matches!(
        error,
        Err(Exit::Fail(ActorError::StepLimit { limit: 1 }))
    ));
    assert_eq!(calls, 1);
    let stored = log.read("thread-1").unwrap();
    assert_eq!(stored.len(), 1);
    assert_eq!(stored[0].cause.as_deref(), Some("spin:0"));

    let mut calls = 0;
    let actor = spin_actor();
    let mut log = MemoryLog::new();
    let error = run(&actor, &mut log, "thread-1", 0, &mut calls, tick);
    assert!(matches!(
        error,
        Err(Exit::Fail(ActorError::StepLimit { limit: 0 }))
    ));
    assert_eq!(calls, 0);
    assert!(log.read("thread-1").unwrap().is_empty());
}

#[test]
fn resume_of_a_log_with_no_transition_returns_zero_steps() {
    let part: ErasedComponent<usize, ()> = component(
        || (),
        |state: (), _fact: &Fact| state,
        |_state: &()| ((), Vec::<Transition<usize>>::new()),
    );
    let actor = Actor::new("quiet", vec![part], |_views: Vec<()>| ());
    let mut log = MemoryLog::new();
    let mut calls = 0;
    let once = run(&actor, &mut log, "thread-1", 1, &mut calls, tick).expect("limit 1");
    assert_eq!(once.steps, 0);
    let zero = run(&actor, &mut log, "thread-1", 0, &mut calls, tick).expect("limit 0");
    assert_eq!(zero.steps, 0);
    assert!(log.read("thread-1").unwrap().is_empty());
}

#[test]
fn a_settled_thread_resumes_without_work() {
    // Enables two transitions while the log holds fewer than two facts, and goes on
    // enabling the finished one.
    let part: ErasedComponent<usize, ()> = component(
        || 0usize,
        |count: usize, _fact: &Fact| count + 1,
        |count: &usize| {
            let enabled = (0..2.min(count + 1))
                .map(|n| Transition { key: format!("work:{n}"), run: n })
                .collect();
            ((), enabled)
        },
    );
    let actor = Actor::new("twice", vec![part], |_views: Vec<()>| ());
    let mut log = MemoryLog::new();
    let mut calls = 0;
    let settled = run(&actor, &mut log, "t", 8, &mut calls, tick).expect("settles");
    assert_eq!((settled.steps, calls, settled.log.len()), (2, 2, 2));

    let read = parse_log(&write_log(&settled.log)).unwrap();
    for (limit, facts) in [(8, log.read("t").unwrap()), (0, read)] {
        match Progress::new(limit).decide(&actor, facts) {
            Ok(Next::Settled(resumed)) => {
                assert_eq!(resumed.steps, 0);
                assert_eq!(resumed.log, settled.log);
                assert_eq!(resumed.cut, settled.cut);
                assert!(resumed.trace.is_empty());
            }
            _ => panic!("settled"),
        }
    }
    let again = run(&actor, &mut log, "t", 8, &mut calls, tick).expect("settles");
    assert_eq!((again.steps, calls), (0, 2));
}

fn fixed(keys: Vec<&'static str>, view: u64) -> ErasedComponent<u64, u64> {
    component(
        || (),
        |state: (), _fact: &Fact| state,
        move |_state: &()| {
            let enabled = keys
                .iter()
                .map(|key| Transition {
                    key: key.to_string(),
                    run: view,
                })
                .collect();
            (view, enabled)
        },
    )
}

#[test]
fn transitions_come_in_the_order_of_their_keys_without_finished_ones() {
    let actor = Actor::new(
        "sorted",
        vec![fixed(vec!["tool:b", "budget:z"], 1), fixed(vec!["compact:10", "compact:2"], 2)],
        |views: Vec<u64>| views.into_iter().sum(),
    );
    let (view, transitions) = actor.project(&[]).ok().unwrap();
    assert_eq!(view, 3);
    let keys: Vec<&str> = transitions.iter().map(|t| t.key.as_str()).collect();
    assert_eq!(keys, vec!["budget:z", "compact:10", "compact:2", "tool:b"]);
    assert_eq!(transitions[1].run, 2);

    let done = fact(1, "note", "n", Some("compact:10"), Json::Null);
    let (_, transitions) = actor.project(&[done]).ok().unwrap();
    let keys: Vec<&str> = transitions.iter().map(|t| t.key.as_str()).collect();
    assert_eq!(keys, vec!["budget:z", "compact:2", "tool:b"]);

    // The order of the components does not matter.
    let swapped = Actor::new(
        "sorted",
        vec![fixed(vec!["compact:2", "compact:10"], 2), fixed(vec!["budget:z", "tool:b"], 1)],
        |views: Vec<u64>| views.into_iter().sum(),
    );
    let (_, other) = swapped.project(&[]).ok().unwrap();
    let other_keys: Vec<&str> = other.iter().map(|t| t.key.as_str()).collect();
    assert_eq!(other_keys, vec!["budget:z", "compact:10", "compact:2", "tool:b"]);
}

#[test]
fn the_first_key_that_stands_twice_is_reported() {
    let actor = Actor::new(
        "dup",
        vec![fixed(vec!["a", "b", "c"], 1), fixed(vec!["c", "a"], 2)],
        |views: Vec<u64>| views.into_iter().sum(),
    );
    let error = actor.project(&[]).err().unwrap();
    assert_eq!(error, ActorError::DuplicateTransition { key: "c".into() });
    // A repeated key is an error even where it is finished.
    let done = fact(1, "note", "n", Some("c"), Json::Null);
    assert!(actor.project(&[done]).is_err());
}

#[test]
fn a_transition_has_a_span_of_its_own() {
    assert_eq!(span_name("infer:1:0"), "transition:infer:1:0");
}

#[test]
fn errors_tell_what_happened() {
    let cases = [
        (
            ActorError::DuplicateFact { key: "k".into() },
            "fact key k was reused with a different payload",
        ),
        (
            ActorError::DuplicateTransition { key: "k".into() },
            "two components enabled transition k",
        ),
        (
            ActorError::StepLimit { limit: 40 },
            "settled after 40 transitions without becoming quiescent",
        ),
        (
            ActorError::BadThreadId { thread_id: "a\"b".into() },
            "thread id \"a\\\"b\" is not a single path segment",
        ),
        (ActorError::Schema("x".into()), "fact schema: x"),
        (ActorError::Config("x".into()), "config: x"),
        (
            ActorError::Handler { key: "k".into(), message: "down".into() },
            "transition k failed: down",
        ),
    ];
    for (error, message) in cases {
        assert_eq!(error.message(), message);
    }
    assert!(Exit::<ActorError>::Interrupt.is_interrupt());
    assert!(!Exit::Fail(ActorError::Config("x".into())).is_interrupt());
    assert_eq!(
        Exit::from(ActorError::Config("x".into())),
        Exit::Fail(ActorError::Config("x".into()))
    );
}

#[test]
fn keys_stay_unique_while_no_batch_repeats_one() {
    let mut log = MemoryLog::new();
    for (first, second) in [("a", "b"), ("c", "d")] {
        log.append(
            "t",
            &[new_fact("n", first, Json::Null), new_fact("n", second, Json::Null)],
            None,
        )
        .unwrap();
    }
    assert!(log.append("t", &[new_fact("m", "c", Json::Null)], None).is_err());
    let mut keys: Vec<String> = log.read("t").unwrap().into_iter().map(|fact| fact.key).collect();
    keys.sort();
    keys.dedup();
    assert_eq!(keys.len(), 4);
}

#[test]
fn finished_work_is_not_repeated() {
    let actor = spin_actor();
    let mut log = MemoryLog::new();
    let mut calls = 0;
    let stopped = run(&actor, &mut log, "t", 3, &mut calls, tick);
    assert!(matches!(stopped, Err(Exit::Fail(ActorError::StepLimit { limit: 3 }))));
    log.append("t", &[new_fact("note", "n", Json::Null)], None).unwrap();
    let stopped = run(&actor, &mut log, "t", 2, &mut calls, tick);
    assert!(matches!(stopped, Err(Exit::Fail(ActorError::StepLimit { limit: 2 }))));
    let causes: Vec<Option<String>> =
        log.read("t").unwrap().into_iter().map(|fact| fact.cause).collect();
    let expected: Vec<Option<String>> = vec![
        Some("spin:0".into()),
        Some("spin:1".into()),
        Some("spin:2".into()),
        None,
        Some("spin:4".into()),
        Some("spin:5".into()),
    ];
    assert_eq!(causes, expected);
    assert_eq!(calls, 5);
}

#[test]
fn threads_have_files_of_their_own() {
    assert_eq!(log_file_name("thread-1"), "thread-1.jsonl");
    assert_ne!(log_file_name("a"), log_file_name("a.jsonl"));
}
