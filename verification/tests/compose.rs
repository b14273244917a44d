use a3s_effect::coding::{coding_scheduler, merge_coding_view, PendingConfirmation, PendingQuestion};
use a3s_effect::compose::{
    budget, compact, compose_coding_actor, infer, mount, namespace_transitions, system, tools,
    with_key_namespace, HarnessGraph, HarnessPartId, HarnessView, MetaHarnessSpec,
};
use a3s_effect::{
    component, message_fact, ActorError, CodingPhase, CodingTask, CodingView, ErasedComponent,
    Fact, HarnessConfig, Json, ToolSpec, Transition,
};

fn asked() -> Vec<Fact> {
    let new = message_fact("m1", "hi");
    vec![Fact {
        seq: 1,
        kind: new.kind,
        key: new.key,
        cause: None,
        payload: new.payload,
    }]
}

fn stock() -> (HarnessConfig, MetaHarnessSpec) {
    let config = HarnessConfig::new(
        2,
        100,
        8,
        1,
        vec!["sys".into()],
        vec![ToolSpec {
            name: "read".into(),
            description: "r".into(),
        }],
    )
    .unwrap();
    let spec = MetaHarnessSpec {
        name: "test",
        budget: 2,
        compact_after_chars: 100,
        step_limit: 8,
        model_attempts: 1,
        system: vec!["sys".into()],
        tools: config.tools().to_vec(),
        tool_round_cap: None,
        parts: Vec::new(),
    };
    (config, spec)
}

#[test]
fn namespace_prefixes_keys() {
    let transitions = namespace_transitions(
        "infer",
        vec![Transition::<()> {
            key: "compact:1".into(),
            run: (),
        }],
    );
    assert_eq!(transitions[0].key, "infer/compact:1");
}

#[test]
fn slashes_around_a_prefix_do_not_count() {
    let one = |prefix: &str| -> String {
        namespace_transitions(prefix, vec![Transition { key: "k".to_string(), run: 7 }])
            .remove(0)
            .key
    };
    assert_eq!(one("/a/"), "a/k");
    assert_eq!(one("//a/b//"), "a/b/k");
    assert_eq!(one(""), "k");
    assert_eq!(one("///"), "k");
}

#[test]
fn stock_spec_parts_include_budget_and_compact() {
    let spec = MetaHarnessSpec::default();
    assert_eq!(
        spec.resolved_parts(),
        vec![
            HarnessPartId::System,
            HarnessPartId::Tools,
            HarnessPartId::Budget,
            HarnessPartId::Compact,
            HarnessPartId::Infer,
        ]
    );
}

#[test]
fn a_recipe_keeps_its_own_parts() {
    let spec = MetaHarnessSpec {
        parts: vec![HarnessPartId::Infer, HarnessPartId::System],
        ..MetaHarnessSpec::default()
    };
    assert_eq!(
        spec.resolved_parts(),
        vec![HarnessPartId::Infer, HarnessPartId::System]
    );
    assert_eq!(spec.clone(), spec);
}

#[test]
fn a_recipe_becomes_a_configuration() {
    let spec = MetaHarnessSpec {
        tool_round_cap: Some(3),
        ..MetaHarnessSpec::default()
    };
    let config = spec.into_config().unwrap();
    assert_eq!(config.step_limit(), 32);
    assert_eq!(config.model_attempts(), 2);
    assert_eq!(config.budget(), 8);
    assert_eq!(config.compact_after_chars(), 1_000_000);
    assert_eq!(config.tool_round_cap(), Some(3));
    let zero = MetaHarnessSpec {
        step_limit: 0,
        ..MetaHarnessSpec::default()
    };
    assert_eq!(
        zero.into_config().unwrap_err(),
        ActorError::Config("step_limit must be at least 1".into())
    );
    let none = MetaHarnessSpec {
        model_attempts: 0,
        ..MetaHarnessSpec::default()
    };
    assert_eq!(
        none.into_config().unwrap_err(),
        ActorError::Config("model_attempts must be at least 1".into())
    );
}

#[test]
fn compose_meta_harness_builds() {
    let (config, spec) = stock();
    let graph = HarnessGraph::from_spec(spec, || coding_scheduler(config.clone()));
    assert_eq!(graph.actor().name, "test");
}

#[test]
fn the_stock_tree_shows_the_policy_slots_besides() {
    let (config, spec) = stock();
    let composed = HarnessGraph::from_spec(spec, || coding_scheduler(config.clone())).into_actor();
    let plain = HarnessGraph::coding(config).into_actor();
    assert_eq!(plain.name, "a3s-code");
    let (view, enabled) = composed.project(&asked()).ok().unwrap();
    let (plain_view, plain_enabled) = plain.project(&asked()).ok().unwrap();
    assert_eq!(view.tool_budget, Some(2));
    assert_eq!(view.compact_after_chars, Some(100));
    assert_eq!(
        HarnessView {
            tool_budget: None,
            compact_after_chars: None,
            ..view
        },
        plain_view
    );
    assert_eq!(enabled.len(), 1);
    assert_eq!(enabled[0].key, "infer:1:0");
    assert_eq!(plain_enabled[0].key, "infer:1:0");
}

#[test]
fn custom_compose_includes_host_component() {
    let host: ErasedComponent<CodingTask, CodingView> = component(
        || (),
        |state: (), _fact: &Fact| state,
        |_state: &()| {
            (
                CodingView {
                    system: vec!["host-slot".into()],
                    ..CodingView::empty()
                },
                Vec::new(),
            )
        },
    );
    let actor = compose_coding_actor(
        "custom",
        vec![
            system(vec!["base".into()]),
            tools(Vec::new()),
            budget(1),
            compact(64),
            host,
        ],
    );
    assert_eq!(actor.name, "custom");
    let (view, enabled) = actor.project(&[]).ok().unwrap();
    assert_eq!(view.system, vec!["base", "host-slot"]);
    assert_eq!(view.tool_budget, Some(1));
    assert_eq!(view.compact_after_chars, Some(64));
    assert!(enabled.is_empty());
}

#[test]
fn nested_schedulers_do_not_collide() {
    let (config, _) = stock();
    let colliding = compose_coding_actor(
        "two",
        vec![coding_scheduler(config.clone()), coding_scheduler(config.clone())],
    );
    assert_eq!(
        colliding.project(&asked()).err().unwrap(),
        ActorError::DuplicateTransition { key: "infer:1:0".into() }
    );
    let nested = compose_coding_actor(
        "two",
        vec![
            coding_scheduler(config.clone()),
            infer(vec![system(vec!["inner".into()]), coding_scheduler(config.clone())]),
            with_key_namespace("/side/", coding_scheduler(config.clone())),
            mount("deep", vec![infer(vec![coding_scheduler(config)])], merge_coding_view),
        ],
    );
    let (view, enabled) = nested.project(&asked()).ok().unwrap();
    assert_eq!(view.system, vec!["inner"]);
    let keys: Vec<&str> = enabled.iter().map(|t| t.key.as_str()).collect();
    assert_eq!(
        keys,
        vec!["deep/infer/infer:1:0", "infer/infer:1:0", "infer:1:0", "side/infer:1:0"]
    );
}

fn view(name: &str) -> CodingView {
    CodingView {
        system: vec![name.to_string()],
        ..CodingView::empty()
    }
}

#[test]
fn views_merge_from_the_first_to_the_last() {
    let first = CodingView {
        assistant: Some("early".into()),
        phase: CodingPhase::Infer,
        schema_error: Some("one".into()),
        pending_confirmation: Some(PendingConfirmation {
            tool_call_id: "t1".into(),
            name: "read".into(),
            args: Json::Null,
        }),
        ..view("a")
    };
    let second = CodingView {
        assistant: Some("late".into()),
        phase: CodingPhase::Done,
        schema_error: Some("two".into()),
        pending_confirmation: Some(PendingConfirmation {
            tool_call_id: "t2".into(),
            name: "read".into(),
            args: Json::Null,
        }),
        pending_question: Some(PendingQuestion {
            question_id: "q".into(),
            question: "?".into(),
            allow_free_text: false,
            options: vec!["x".into()],
        }),
        ..view("b")
    };
    let all = merge_coding_view(vec![first.clone(), second.clone(), CodingView::empty()]);
    assert_eq!(all.system, vec!["a", "b"]);
    assert_eq!(all.assistant.as_deref(), Some("late"));
    assert_eq!(all.phase, CodingPhase::Done);
    assert_eq!(all.schema_error.as_deref(), Some("one"));
    assert_eq!(all.pending_confirmation.as_ref().unwrap().tool_call_id, "t1");
    assert_eq!(all.pending_question.as_ref().unwrap().options, vec!["x"]);
    assert_eq!(merge_coding_view(Vec::new()), CodingView::empty());
    // Grouping does not matter.
    let grouped = merge_coding_view(vec![
        first.clone(),
        merge_coding_view(vec![second.clone(), CodingView::empty()]),
    ]);
    assert_eq!(grouped, all);
}

#[test]
fn prefixes_of_several_segments_keep_keys_apart() {
    let named = |prefix: &str, key: &str| {
        namespace_transitions(prefix, vec![Transition::<()> { key: key.into(), run: () }])
            .remove(0)
            .key
    };
    for key in ["x", "b/x", "c/x", "/x", ""] {
        for other in ["x", "b/x", "c/x", "/x", ""] {
            assert_ne!(named("a/b", key), named("/a/c/", other));
            assert_ne!(named("a", key), named("ab", other));
        }
    }
    // A prefix that goes on where another ends shares keys with it.
    assert_eq!(named("a", "b/x"), named("a/b", "x"));
}
