use actions_models::common::{BasePermission, EnvValue, LoE, Permissions, SoV};
use actions_models::error::{ErrorKind, PathSeg};
use actions_models::record::UnknownFieldPolicy;
use actions_models::value::{Node, NodeKind};
use actions_models::workflow::{
    decode_concurrency, decode_job, decode_trigger, decode_workflow, encode_workflow, BareEvent,
    Concurrency, Defaults, EventConfig, Events, Job, NormalJob, ReusableWorkflowCallJob,
    RunDefaults, Trigger, Workflow,
};

fn text(s: &str) -> Node {
    Node::new(NodeKind::Text(s.to_string()))
}

fn mapping(entries: Vec<(&str, Node)>) -> Node {
    Node::new(NodeKind::Mapping(entries.into_iter().map(|(k, v)| (k.to_string(), v)).collect()))
}

#[test]
fn trigger_bare_event() {
    let t = decode_trigger(&text("push"), UnknownFieldPolicy::Strict).unwrap();
    assert_eq!(t, Trigger::BareEvent(BareEvent::Push));
}

#[test]
fn trigger_bare_event_list() {
    let n = Node::new(NodeKind::Sequence(vec![text("push"), text("fork")]));
    let t = decode_trigger(&n, UnknownFieldPolicy::Strict).unwrap();
    assert_eq!(t, Trigger::BareEvents(vec![BareEvent::Push, BareEvent::Fork]));
}

#[test]
fn trigger_event_mapping() {
    let n = mapping(vec![
        (
            "push",
            mapping(vec![("branches", Node::new(NodeKind::Sequence(vec![text("main")])))]),
        ),
        ("pull_request", Node::new(NodeKind::Null)),
    ]);
    let t = decode_trigger(&n, UnknownFieldPolicy::Strict).unwrap();
    match t {
        Trigger::Events(events) => {
            assert_eq!(events.entries.len(), 2);
            assert_eq!(events.entries[0].0, BareEvent::Push);
            let cfg = events.entries[0].1.as_ref().unwrap();
            assert_eq!(cfg.branches, Some(SoV::Many(vec!["main".to_string()])));
            assert_eq!(events.entries[1].0, BareEvent::PullRequest);
            assert!(events.entries[1].1.is_none());
        },
        other => panic!("expected mapping trigger, got {:?}", other),
    }
}

#[test]
fn trigger_unknown_event() {
    let err = decode_trigger(&text("deploy"), UnknownFieldPolicy::Strict).unwrap_err();
    match err.kind {
        ErrorKind::UnknownVariant { found, .. } => assert_eq!(found, "deploy"),
        other => panic!("expected UnknownVariant, got {:?}", other),
    }
}

#[test]
fn trigger_keyword_folding() {
    let t = decode_trigger(&text("Pull-Request"), UnknownFieldPolicy::Strict).unwrap();
    assert_eq!(t, Trigger::BareEvent(BareEvent::PullRequest));
}

#[test]
fn concurrency_requires_group() {
    let n = mapping(vec![("cancel-in-progress", Node::new(NodeKind::Bool(true)))]);
    let err = decode_concurrency(&n, UnknownFieldPolicy::Strict).unwrap_err();
    match err.kind {
        ErrorKind::MissingRequiredField { field } => assert_eq!(field, "group"),
        other => panic!("expected MissingRequiredField, got {:?}", other),
    }

    let n = mapping(vec![("group", text("ci"))]);
    let c = decode_concurrency(&n, UnknownFieldPolicy::Strict).unwrap();
    assert_eq!(c.group, "ci");
    assert_eq!(c.cancel_in_progress, LoE::Literal(false));
}

#[test]
fn job_union_precedence() {
    let reusable = mapping(vec![("uses", text("octo/ci/.github/workflows/x.yml@v1"))]);
    match decode_job(&reusable, UnknownFieldPolicy::Strict).unwrap() {
        Job::ReusableWorkflowCallJob(j) => {
            assert_eq!(j.uses, "octo/ci/.github/workflows/x.yml@v1");
            assert!(j.with_args.is_empty());
        },
        other => panic!("expected reusable job, got {:?}", other),
    }

    let normal = mapping(vec![("runs-on", text("ubuntu-latest"))]);
    match decode_job(&normal, UnknownFieldPolicy::Strict).unwrap() {
        Job::NormalJob(j) => {
            assert_eq!(j.runs_on, SoV::One("ubuntu-latest".to_string()));
            assert_eq!(j.permissions, Permissions::Base(BasePermission::Default));
            assert!(j.env.is_empty());
            assert_eq!(j.continue_on_error, LoE::Literal(false));
            assert!(j.name.is_none());
        },
        other => panic!("expected normal job, got {:?}", other),
    }
}

#[test]
fn normal_job_requires_runs_on() {
    let n = mapping(vec![("name", text("build"))]);
    let err = decode_job(&n, UnknownFieldPolicy::Strict).unwrap_err();
    match err.kind {
        ErrorKind::MissingRequiredField { field } => assert_eq!(field, "runs-on"),
        other => panic!("expected MissingRequiredField, got {:?}", other),
    }
}

#[test]
fn workflow_full_document() {
    let doc = mapping(vec![
        ("name", text("CI")),
        ("on", Node::new(NodeKind::Sequence(vec![text("push"), text("fork")]))),
        ("permissions", text("read-all")),
        ("env", mapping(vec![("FOO", Node::new(NodeKind::Number("1".to_string())))])),
        ("concurrency", mapping(vec![("group", text("ci"))])),
        (
            "jobs",
            mapping(vec![("build", mapping(vec![("runs-on", text("ubuntu-latest"))]))]),
        ),
    ]);
    let w = decode_workflow(&doc, UnknownFieldPolicy::Strict).unwrap();
    assert_eq!(w.name, Some("CI".to_string()));
    assert_eq!(w.run_name, None);
    assert_eq!(w.on, Trigger::BareEvents(vec![BareEvent::Push, BareEvent::Fork]));
    assert_eq!(w.permissions, Permissions::Base(BasePermission::ReadAll));
    assert_eq!(w.env, vec![("FOO".to_string(), EnvValue::Number("1".to_string()))]);
    assert!(w.defaults.is_none());
    assert_eq!(w.concurrency.as_ref().unwrap().group, "ci");
    assert_eq!(w.jobs.len(), 1);
    assert_eq!(w.jobs[0].0, "build");
}

#[test]
fn workflow_defaults_when_omitted() {
    let doc = mapping(vec![
        ("on", text("push")),
        ("jobs", mapping(vec![])),
    ]);
    let w = decode_workflow(&doc, UnknownFieldPolicy::Strict).unwrap();
    assert_eq!(w.permissions, Permissions::Base(BasePermission::Default));
    assert!(w.env.is_empty());
    assert!(w.name.is_none());
    assert!(w.defaults.is_none());
    assert!(w.concurrency.is_none());
}

#[test]
fn workflow_requires_on_and_jobs() {
    let doc = mapping(vec![("jobs", mapping(vec![]))]);
    let err = decode_workflow(&doc, UnknownFieldPolicy::Strict).unwrap_err();
    match err.kind {
        ErrorKind::MissingRequiredField { field } => assert_eq!(field, "on"),
        other => panic!("expected MissingRequiredField, got {:?}", other),
    }

    let doc = mapping(vec![("on", text("push"))]);
    let err = decode_workflow(&doc, UnknownFieldPolicy::Strict).unwrap_err();
    match err.kind {
        ErrorKind::MissingRequiredField { field } => assert_eq!(field, "jobs"),
        other => panic!("expected MissingRequiredField, got {:?}", other),
    }
}

#[test]
fn workflow_unknown_key_strict_only() {
    let doc = mapping(vec![
        ("on", text("push")),
        ("jobs", mapping(vec![])),
        ("unrelated-key", text("x")),
    ]);
    let err = decode_workflow(&doc, UnknownFieldPolicy::Strict).unwrap_err();
    match err.kind {
        ErrorKind::UnknownField { key } => assert_eq!(key, "unrelated-key"),
        other => panic!("expected UnknownField, got {:?}", other),
    }
    assert!(decode_workflow(&doc, UnknownFieldPolicy::Lenient).is_ok());
}

#[test]
fn error_paths_reach_into_jobs() {
    let doc = mapping(vec![
        ("on", text("push")),
        (
            "jobs",
            mapping(vec![(
                "build",
                mapping(vec![("runs-on", text("x")), ("permissions", text("admin-all"))]),
            )]),
        ),
    ]);
    let err = decode_workflow(&doc, UnknownFieldPolicy::Strict).unwrap_err();
    assert_eq!(
        err.path,
        vec![
            PathSeg::Key("jobs".to_string()),
            PathSeg::Key("build".to_string()),
            PathSeg::Key("permissions".to_string()),
        ]
    );
    assert!(matches!(err.kind, ErrorKind::UnknownVariant { .. }));
}

#[test]
fn workflow_roundtrip() {
    let w = Workflow {
        name: Some("CI".to_string()),
        run_name: None,
        on: Trigger::Events(Box::new(Events {
            entries: vec![
                (
                    BareEvent::Push,
                    Some(EventConfig { branches: Some(SoV::Many(vec!["main".to_string()])) }),
                ),
                (BareEvent::Fork, None),
            ],
        })),
        permissions: Permissions::Base(BasePermission::ReadAll),
        env: vec![("FOO".to_string(), EnvValue::Number("1".to_string()))],
        defaults: Some(Defaults {
            run: Some(RunDefaults { shell: Some("bash".to_string()), working_directory: None }),
        }),
        concurrency: Some(Concurrency {
            group: "ci".to_string(),
            cancel_in_progress: LoE::Expr("${{ github.ref }}".to_string()),
        }),
        jobs: vec![
            (
                "build",
                Job::NormalJob(Box::new(NormalJob {
                    name: None,
                    runs_on: SoV::One("ubuntu-latest".to_string()),
                    permissions: Permissions::Base(BasePermission::Default),
                    env: vec![],
                    continue_on_error: LoE::Literal(true),
                })),
            ),
            (
                "release",
                Job::ReusableWorkflowCallJob(Box::new(ReusableWorkflowCallJob {
                    uses: "octo/ci/.github/workflows/release.yml@v2".to_string(),
                    with_args: vec![("flag".to_string(), EnvValue::Boolean(true))],
                })),
            ),
        ]
        .into_iter()
        .map(|(k, v)| (k.to_string(), v))
        .collect(),
    };
    let encoded = encode_workflow(&w);
    let decoded = decode_workflow(&encoded, UnknownFieldPolicy::Strict).unwrap();
    assert_eq!(decoded, w);
    let again = decode_workflow(&encode_workflow(&decoded), UnknownFieldPolicy::Lenient).unwrap();
    assert_eq!(again, w);
}

#[test]
fn source_locations_travel_with_errors() {
    let bad = Node { kind: NodeKind::Bool(true), loc: Some(42) };
    let doc = mapping(vec![("on", text("push")), ("jobs", mapping(vec![])), ("name", bad)]);
    let err = decode_workflow(&doc, UnknownFieldPolicy::Strict).unwrap_err();
    assert_eq!(err.loc, Some(42));
    assert!(matches!(err.kind, ErrorKind::TypeMismatch { .. }));
}
