use sayiir::branch_key::BranchKey;
use sayiir::builder::{NoContinuation, NoRegistry, WorkflowBuilder};
use sayiir::context::WorkflowContext;
use sayiir::continuation_builder::{
    build_chain, validate_duration, BuilderTask, FlowBuilder, Seconds,
};
use sayiir::deps::Deps;
use sayiir::deps_check::{check_deps, InjectedTask};
use sayiir::duration::Duration;
use sayiir::error::{BuildError, BuildErrors};
use sayiir::hash32::TaskId;
use sayiir::priority::Priority;
use sayiir::registry::TaskRegistry;
use sayiir::task::{TaskDefinition, TaskHandle, TaskMetadata};
use sayiir::task_index::TaskIndex;
use sayiir::workflow::{MaxIterationsPolicy, SerializableWorkflow, Workflow};
use std::sync::Arc;

struct DummyCodec;

type Start = WorkflowBuilder<DummyCodec, u32, u32, (), NoContinuation, NoRegistry>;

fn start() -> Start {
    WorkflowBuilder::new(WorkflowContext::new("wf", Arc::new(DummyCodec), Arc::new(())))
}

fn h(index: u64) -> TaskHandle {
    TaskHandle { index }
}

fn errors<T>(r: Result<T, BuildErrors>) -> Vec<BuildError> {
    match r {
        Ok(_) => panic!("expected build errors"),
        Err(e) => e.into_vec(),
    }
}

fn ids<M>(w: &Workflow<DummyCodec, u32, M>) -> Vec<String> {
    let stored = w.continuation().to_serializable();
    stored.task_ids().into_iter().map(String::from).collect()
}

#[test]
fn errors_are_collected_and_reported_together() {
    let e = errors(
        start()
            .with_registry()
            .then_registered::<u32>("missing")
            .loop_task::<u32>("again", h(0), 0)
            .then::<u32>("again", h(1))
            .build(),
    );
    assert_eq!(e.len(), 3);
    assert!(matches!(&e[0], BuildError::TaskNotFound(id) if id == "missing"));
    assert!(matches!(&e[1], BuildError::InvalidMaxIterations(id) if id == "again"));
    assert!(matches!(&e[2], BuildError::DuplicateTaskId(id) if id == "again"));
}

#[test]
fn loops_and_children_are_numbered() {
    let child = start().then::<u32>("inner", h(2)).build().unwrap();
    let w = start()
        .loop_task::<u32>("a", h(0), 3)
        .loop_task_with_policy::<u32>("b", h(1), 3, MaxIterationsPolicy::ExitWithLast)
        .then_flow::<u32>(child)
        .build()
        .unwrap();
    assert_eq!(ids(&w), vec!["loop_0", "a", "loop_1", "b", "child_0", "inner"]);
}

#[test]
fn serializable_children_bring_their_tasks() {
    let child: SerializableWorkflow<DummyCodec, u32> =
        start().with_registry().then::<u32>("inner", h(2)).build().unwrap();
    let w = start()
        .with_registry()
        .then::<u32>("outer", h(1))
        .then_serializable_flow::<u32>(child)
        .build()
        .unwrap();
    assert!(w.registry().contains("inner"));
    assert!(w.to_runnable(&w.to_serializable()).is_ok());
}

#[test]
fn definitions_carry_their_metadata() {
    let definition = |id: &str| TaskDefinition {
        task_id: id.into(),
        metadata: TaskMetadata {
            timeout: Some(Duration::from_secs(4)),
            priority: Some(Priority::High),
            tags: vec!["gpu".into()],
            ..Default::default()
        },
        handle: h(3),
    };
    let w = start()
        .with_registry()
        .then_task_with::<u32>(definition("a"))
        .loop_task_struct_with::<u32>(definition("b"), 2)
        .build()
        .unwrap();
    assert_eq!(w.registry().get("a"), Some(h(3)));
    assert_eq!(w.registry().get_metadata("b").unwrap().timeout, Some(Duration::from_secs(4)));
    let index = TaskIndex::build(w.continuation());
    let id = TaskId::from("b");
    assert!(index.contains(&id));
    assert_eq!(index.name(&id), Some("b"));
    assert_eq!(index.timeout(&id), Some(Duration::from_secs(4)));
    assert_eq!(index.priority(&id), Some(Priority::High.as_u8()));
    assert_eq!(index.tags(&id), vec!["gpu"]);
    assert_eq!(index.build_task_metadata(&id).timeout, Some(Duration::from_secs(4)));
    assert!(!index.contains(&TaskId::from("c")));
    // Loops are no entries of the index.
    assert!(!index.contains(&TaskId::from("loop_0")));
    assert_eq!(index.len(), 2);
}

#[test]
fn registered_branches_take_their_metadata_from_the_registry() {
    let mut registry = TaskRegistry::new();
    registry.register_with_metadata(
        "left",
        h(1),
        TaskMetadata { timeout: Some(Duration::from_secs(1)), ..Default::default() },
    );
    registry.register("right", h(2));
    registry.register("join", h(3));
    let w: SerializableWorkflow<DummyCodec, u32> = start()
        .with_existing_registry(registry)
        .fork()
        .branch_registered("left")
        .branch_registered("right")
        .join_registered::<u32>("join")
        .build()
        .unwrap();
    assert_eq!(ids(&w), vec!["left||right", "left", "right", "join"]);
    assert_eq!(w.continuation().get_task_timeout("left"), Some(Duration::from_secs(1)));
    let e = errors(
        start()
            .with_registry()
            .fork()
            .branch_registered("x")
            .join_registered::<u32>("y")
            .build(),
    );
    assert_eq!(e.len(), 2);
}

#[test]
fn a_registered_loop_is_named_after_its_body() {
    let mut registry = TaskRegistry::new();
    registry.register("refine", h(1));
    let w: SerializableWorkflow<DummyCodec, u32> = start()
        .with_existing_registry(registry)
        .loop_task_registered::<u32>("refine", 10, MaxIterationsPolicy::Fail)
        .loop_task::<u32>("again", h(2), 3)
        .build()
        .unwrap();
    assert_eq!(ids(&w), vec!["loop_refine", "refine", "loop_1", "again"]);
    let e = errors(
        start()
            .with_registry()
            .loop_task_registered::<u32>("x", 0, MaxIterationsPolicy::Fail)
            .build(),
    );
    assert_eq!(e.len(), 2);
    assert!(matches!(&e[0], BuildError::InvalidMaxIterations(id) if id == "x"));
    assert!(matches!(&e[1], BuildError::TaskNotFound(id) if id == "x"));
}

#[derive(Clone, Copy)]
enum Intent {
    Billing,
    Tech,
}

impl BranchKey for Intent {
    fn as_key(&self) -> &'static str {
        match self {
            Intent::Billing => "billing",
            Intent::Tech => "tech",
        }
    }

    fn all_keys() -> &'static [&'static str] {
        &["billing", "tech"]
    }
}

#[test]
fn routes_cover_their_keys() {
    let w = start()
        .with_registry()
        .route::<u32, Intent>(h(9))
        .branch(Intent::Tech, |s| s.then::<u32>("fix", h(1)))
        .branch(Intent::Billing, |s| s.then::<u32>("bill", h(2)))
        .done()
        .build()
        .unwrap();
    assert_eq!(ids(&w), vec!["branch_1", "bill", "fix"]);
    assert!(w.registry().contains("branch_1::key_fn"));
    assert!(w.to_runnable(&w.to_serializable()).is_ok());
    let e = errors(
        start()
            .route::<u32, Intent>(h(9))
            .branch(Intent::Tech, |s| s.then::<u32>("fix", h(1)))
            .done()
            .build(),
    );
    assert!(matches!(
        &e[0],
        BuildError::MissingBranches { branch_id, missing_keys }
            if branch_id == "branch_1" && missing_keys == &vec!["billing".to_string()]
    ));
    let covered = start()
        .route::<u32, Intent>(h(9))
        .branch(Intent::Tech, |s| s.then::<u32>("fix", h(1)))
        .default_branch(|s| s.then::<u32>("other", h(2)))
        .done()
        .build();
    assert!(covered.is_ok());
}

#[test]
fn registered_routes_check_their_tasks() {
    let mut registry = TaskRegistry::new();
    registry.register("branch_0::key_fn", h(0));
    registry.register("a", h(1));
    let w: SerializableWorkflow<DummyCodec, u32> = start()
        .with_existing_registry(registry)
        .route_registered::<u32>("branch_0")
        .branch_registered("x", &["a"])
        .done()
        .build()
        .unwrap();
    assert!(w.to_runnable(&w.to_serializable()).is_ok());
    let e = errors(
        start()
            .with_registry()
            .route_registered::<u32>("branch_0")
            .branch_registered("x", &["a", "b"])
            .default_registered(&[])
            .done()
            .build(),
    );
    assert_eq!(e.len(), 4);
    assert!(matches!(&e[0], BuildError::TaskNotFound(id) if id == "branch_0::key_fn"));
    assert!(matches!(&e[1], BuildError::TaskNotFound(id) if id == "b"));
    assert!(matches!(&e[2], BuildError::TaskNotFound(id) if id == "a"));
    assert!(matches!(&e[3], BuildError::EmptyFork));
}

fn meta() -> TaskMetadata {
    TaskMetadata::default()
}

#[test]
fn a_flow_builds_its_steps() {
    let mut flow = FlowBuilder::new();
    assert_eq!(flow.next_lambda_id(), "lambda_0");
    flow.add_sequential("a".into(), meta());
    flow.add_fork(
        vec![vec![("b".into(), meta()), ("c".into(), meta())], vec![("d".into(), meta())]],
        "e".into(),
        meta(),
    )
    .unwrap();
    flow.add_delay("wait".into(), Seconds::Valid(Duration::from_millis(1500))).unwrap();
    flow.add_signal("sig".into(), "go".into(), None).unwrap();
    let loop_id = flow.add_loop("f".into(), meta(), 3, MaxIterationsPolicy::Fail).unwrap();
    let branch_id = flow
        .add_branch(vec![("k".into(), vec![("g".into(), meta())])], None)
        .unwrap();
    flow.add_child_workflow(
        "child".into(),
        vec![BuilderTask::Sequential { task_id: "h".into(), metadata: meta() }],
    )
    .unwrap();
    let tree = flow.build().unwrap();
    assert_eq!(
        tree.to_serializable().task_ids(),
        vec![
            "a", "b||d", "b", "c", "d", "e", "wait", "sig", loop_id.as_str(), "f",
            branch_id.as_str(), "g", "child", "h",
        ],
    );
    assert_eq!(loop_id, "loop_0");
}

#[test]
fn flows_that_cannot_be_built() {
    assert!(matches!(FlowBuilder::new().build(), Err(BuildError::EmptyWorkflow)));
    assert!(build_chain(&[]).is_err());
    let mut flow = FlowBuilder::new();
    assert!(matches!(flow.add_fork(vec![], "j".into(), meta()), Err(BuildError::EmptyFork)));
    assert!(flow.add_loop("f".into(), meta(), 0, MaxIterationsPolicy::Fail).is_err());
    assert!(matches!(
        flow.add_child_workflow("c".into(), vec![]),
        Err(BuildError::EmptyWorkflow),
    ));
    match validate_duration(Seconds::Invalid, "delay") {
        Err(BuildError::InvalidDuration(label)) => assert_eq!(label, "delay"),
        _ => panic!("expected an invalid duration"),
    }
}

#[test]
fn dependencies_are_checked_before_tasks_are_made() {
    let deps = Deps::builder().insert("Stripe", 1u8).build();
    let mut registry = TaskRegistry::new();
    registry.register("b", h(0));
    let tasks = vec![
        InjectedTask { task_id: "a".into(), needs: vec!["Mail".into(), "Stripe".into()] },
        InjectedTask { task_id: "b".into(), needs: vec!["Stripe".into()] },
    ];
    let missing = tasks[0].verify_deps(&deps);
    assert_eq!(missing.len(), 1);
    assert_eq!(missing[0].dep_type, "Mail");
    let e = errors(check_deps(&deps, &registry, &tasks));
    assert_eq!(e.len(), 2);
    assert!(matches!(
        &e[0],
        BuildError::MissingDep { task_id, dep_type } if task_id == "a" && dep_type == "Mail"
    ));
    assert!(matches!(
        &e[1],
        BuildError::RegistryDepsConflict { task_id } if task_id == "b"
    ));
    let deps = Deps::builder().insert("Stripe", 1u8).insert("Mail", 2u8).build();
    assert!(check_deps(&deps, &TaskRegistry::new(), &tasks).is_ok());
}
