use sayiir::builder::WorkflowBuilder;
use sayiir::context::WorkflowContext;
use sayiir::continuation::WorkflowContinuation;
use sayiir::duration::Duration;
use sayiir::error::BuildError;
use sayiir::registry::TaskRegistry;
use sayiir::stored::SerializableContinuation;
use sayiir::string_map::StringMap;
use sayiir::task::{RetryPolicy, TaskHandle, TaskMetadata};
use sayiir::workflow::{MaxIterationsPolicy, NodeKind, SerializableWorkflow, Workflow};
use std::sync::Arc;

struct DummyCodec;

fn task() -> TaskHandle {
    TaskHandle { index: 0 }
}

#[test]
fn the_last_node_of_a_chain_has_its_own_id() {
    let body = WorkflowContinuation::Task {
        id: "b".into(),
        func: None,
        timeout: None,
        retry_policy: None,
        version: None,
        priority: None,
        tags: vec![],
        next: None,
    };
    let c = WorkflowContinuation::Loop {
        id: "loop_0".into(),
        body: Box::new(body),
        max_iterations: 3,
        on_max: MaxIterationsPolicy::Fail,
        next: None,
    };
    assert_eq!(c.terminal_task_id(), "loop_0");
    assert_eq!(c.first_task_id(), "b");
    let chain = WorkflowContinuation::Delay {
        id: "d".into(),
        duration: Duration::from_secs(1),
        next: Some(Box::new(c)),
    };
    assert_eq!(chain.terminal_task_id(), "loop_0");
}

#[test]
fn test_workflow_build() {
    let ctx = WorkflowContext::new("test-workflow", Arc::new(DummyCodec), Arc::new(()));
    let workflow: Workflow<DummyCodec, u32> = WorkflowBuilder::new(ctx)
        .then::<u32>("test", task())
        .build()
        .unwrap();

    let _workflow_ref = &workflow;
}

#[test]
fn test_workflow_with_metadata() {
    let ctx = WorkflowContext::new(
        "test-workflow",
        Arc::new(DummyCodec),
        Arc::new("test_metadata"),
    );
    let workflow: Workflow<DummyCodec, u32, &str> = WorkflowBuilder::new(ctx)
        .then::<u32>("test", task())
        .build()
        .unwrap();

    assert_eq!(**workflow.metadata(), "test_metadata");
}

#[test]
fn test_task_order() {
    let ctx = WorkflowContext::new("test-workflow", Arc::new(DummyCodec), Arc::new(()));
    let workflow: Workflow<DummyCodec, u32> = WorkflowBuilder::new(ctx)
        .then::<u32>("first", task())
        .then::<u32>("second", task())
        .then::<u32>("third", task())
        .build()
        .unwrap();

    // Verify the continuation chain structure
    // Tasks should be linked in order: first -> second -> third
    let mut current = workflow.continuation();
    let mut task_ids = vec![];

    loop {
        match current {
            WorkflowContinuation::Task { id, next, .. } => {
                task_ids.push(id.clone());
                match next {
                    Some(next_box) => current = next_box.as_ref(),
                    None => break,
                }
            }
            _ => break,
        }
    }

    assert_eq!(
        task_ids,
        vec!["first", "second", "third"],
        "Tasks should execute in the order they were added"
    );
}

#[test]
fn test_heterogeneous_fork_join_compiles() {
    let ctx = WorkflowContext::new("test-workflow", Arc::new(DummyCodec), Arc::new(()));
    // This test verifies that the heterogeneous fork-join API compiles correctly.
    // Each branch can return a different type thanks to type erasure.
    let workflow: Workflow<DummyCodec, u32> = WorkflowBuilder::new(ctx)
        .then::<u32>("prepare", task())
        .branches(|mut b| {
            // Returns u32
            b.add("count", task());
            // Returns String - heterogeneous output type!
            b.add("name", task());
            // Returns f64 - another different type!
            b.add("ratio", task());
            b
        })
        .join::<u32>("combine", task())
        .then::<u32>("final", task())
        .build()
        .unwrap();

    let _workflow_ref = &workflow;
}

#[test]
fn test_duplicate_branch_id_returns_error() {
    let ctx = WorkflowContext::new("test-workflow", Arc::new(DummyCodec), Arc::new(()));
    let result = WorkflowBuilder::<_, u32, _>::new(ctx)
        .then::<u32>("prepare", task())
        .branches(|mut b| {
            b.add("count", task());
            b.add("count", task()); // Duplicate!
            b
        })
        .join::<u32>("combine", task())
        .build();

    let err = match result {
        Err(e) => e,
        Ok(_) => panic!("expected build error"),
    };
    assert!(
        err.iter()
            .any(|e| matches!(e, BuildError::DuplicateTaskId(id) if id == "count"))
    );
}

#[test]
fn test_serializable_continuation() {
    // Build a workflow
    let codec = Arc::new(DummyCodec);
    let ctx = WorkflowContext::new("test-workflow", codec.clone(), Arc::new(()));
    let workflow = WorkflowBuilder::<_, u32, _>::new(ctx)
        .then::<u32>("step1", task())
        .then::<u32>("step2", task())
        .build()
        .unwrap();

    // Convert to serializable
    let serializable = workflow.continuation().to_serializable();

    // Check structure
    let task_ids = serializable.task_ids();
    assert_eq!(task_ids, vec!["step1", "step2"]);

    // Hydration fails without registry
    let empty_registry = TaskRegistry::new();
    let result = serializable.to_runnable(&empty_registry);
    assert!(matches!(result, Err(BuildError::TaskNotFound(id)) if id == "step1"));

    // Hydration succeeds with proper registry
    let mut registry = TaskRegistry::new();
    registry.register("step1", task());
    registry.register("step2", task());

    let hydrated = serializable.to_runnable(&registry);
    assert!(hydrated.is_ok());
}

#[test]
fn test_serializable_fork_join() {
    let ctx = WorkflowContext::new("test-workflow", Arc::new(DummyCodec), Arc::new(()));
    let workflow = WorkflowBuilder::<_, u32, _>::new(ctx)
        .then::<u32>("prepare", task())
        .branches(|mut b| {
            b.add("branch_a", task());
            b.add("branch_b", task());
            b
        })
        .join::<u32>("merge", task())
        .build()
        .unwrap();

    let serializable = workflow.continuation().to_serializable();
    let task_ids = serializable.task_ids();

    // Should contain: prepare, fork (branch_a||branch_b), branch_a, branch_b, merge
    assert!(task_ids.contains(&"prepare"));
    assert!(task_ids.contains(&"branch_a||branch_b"));
    assert!(task_ids.contains(&"branch_a"));
    assert!(task_ids.contains(&"branch_b"));
    assert!(task_ids.contains(&"merge"));
    assert_eq!(task_ids.len(), 5);
}

#[test]
fn test_serializable_workflow_builder() {
    let codec = Arc::new(DummyCodec);
    let ctx = WorkflowContext::new("test-workflow", codec, Arc::new(()));

    // Build with with_registry() - registry is auto-populated
    let workflow = WorkflowBuilder::<_, u32, _>::new(ctx)
        .with_registry()
        .then::<u32>("step1", task())
        .then::<u32>("step2", task())
        .build()
        .unwrap();

    // Registry was auto-populated
    assert!(workflow.registry().contains("step1"));
    assert!(workflow.registry().contains("step2"));
    assert_eq!(workflow.registry().len(), 2);

    // Can serialize
    let serializable = workflow.to_serializable();
    assert_eq!(serializable.continuation.task_ids(), vec!["step1", "step2"]);

    // Can hydrate using internal registry
    let hydrated = workflow.to_runnable(&serializable);
    assert!(hydrated.is_ok());
}

#[test]
fn test_with_existing_registry_and_then_registered() {
    let codec = Arc::new(DummyCodec);

    // Pre-register tasks in a registry
    let mut registry = TaskRegistry::new();
    registry.register("double", task());
    registry.register("add_ten", task());

    // Build workflow using existing registry and referencing pre-registered tasks
    let ctx = WorkflowContext::new("test-workflow", codec.clone(), Arc::new(()));
    let workflow: SerializableWorkflow<_, u32> = WorkflowBuilder::new(ctx)
        .with_existing_registry(registry)
        .then_registered::<u32>("double")
        .then_registered::<u32>("add_ten")
        .build()
        .unwrap();

    // Registry should contain the pre-registered tasks
    assert!(workflow.registry().contains("double"));
    assert!(workflow.registry().contains("add_ten"));

    // Workflow structure should reference those tasks
    let serializable = workflow.to_serializable();
    assert_eq!(
        serializable.continuation.task_ids(),
        vec!["double", "add_ten"]
    );

    // Can hydrate using the same registry
    let hydrated = workflow.to_runnable(&serializable);
    assert!(hydrated.is_ok());
}

#[test]
fn test_mixed_inline_and_registered_tasks() {
    let codec = Arc::new(DummyCodec);

    // Pre-register one task
    let mut registry = TaskRegistry::new();
    registry.register("preregistered", task());

    // Build workflow mixing pre-registered and inline tasks
    let ctx = WorkflowContext::new("test-workflow", codec.clone(), Arc::new(()));
    let workflow: SerializableWorkflow<_, u32> = WorkflowBuilder::new(ctx)
        .with_existing_registry(registry)
        .then_registered::<u32>("preregistered") // Use pre-registered
        .then::<u32>("inline", task()) // Define inline
        .build()
        .unwrap();

    // Registry should have both tasks
    assert!(workflow.registry().contains("preregistered"));
    assert!(workflow.registry().contains("inline"));
    assert_eq!(workflow.registry().len(), 2);
}

#[test]
fn test_workflow_id_and_definition_hash() {
    let ctx = WorkflowContext::new("my-workflow-id", Arc::new(DummyCodec), Arc::new(()));
    let workflow = WorkflowBuilder::<_, u32, _>::new(ctx)
        .with_registry()
        .then::<u32>("step1", task())
        .then::<u32>("step2", task())
        .build()
        .unwrap();

    // Check workflow_id is set correctly
    assert_eq!(workflow.workflow_id(), "my-workflow-id");

    // Definition hash should be non-empty
    assert!(!workflow.definition_hash().is_empty());

    // Serializable state should contain the same id and hash
    let state = workflow.to_serializable();
    assert_eq!(state.workflow_id, "my-workflow-id");
    assert_eq!(state.definition_hash, workflow.definition_hash());
}

#[test]
fn test_definition_hash_changes_with_structure() {
    // Build two workflows with different structures
    let ctx1 = WorkflowContext::new("workflow", Arc::new(DummyCodec), Arc::new(()));
    let workflow1 = WorkflowBuilder::<_, u32, _>::new(ctx1)
        .with_registry()
        .then::<u32>("step1", task())
        .build()
        .unwrap();

    let ctx2 = WorkflowContext::new("workflow", Arc::new(DummyCodec), Arc::new(()));
    let workflow2 = WorkflowBuilder::<_, u32, _>::new(ctx2)
        .with_registry()
        .then::<u32>("step1", task())
        .then::<u32>("step2", task())
        .build()
        .unwrap();

    assert_ne!(workflow1.definition_hash(), workflow2.definition_hash());
}

#[test]
fn test_definition_mismatch_error() {
    let ctx = WorkflowContext::new("test-workflow", Arc::new(DummyCodec), Arc::new(()));
    let workflow = WorkflowBuilder::<_, u32, _>::new(ctx)
        .with_registry()
        .then::<u32>("step1", task())
        .build()
        .unwrap();

    // Create a state with wrong hash
    let mut state = workflow.to_serializable();
    state.definition_hash = "wrong-hash".to_string();

    // to_runnable should fail with DefinitionMismatch
    let result = workflow.to_runnable(&state);
    assert!(matches!(result, Err(BuildError::DefinitionMismatch { .. })));
}

#[test]
fn test_duplicate_id_tampering_detection() {
    // Create a registry with tasks
    let mut registry = TaskRegistry::new();
    registry.register("step1", task());
    registry.register("step2", task());

    // Manually construct a tampered continuation with duplicate IDs
    let tampered = SerializableContinuation::Task {
        id: "step1".to_string(),
        timeout_ms: None,
        retry_policy: None,
        version: None,
        priority: None,

        tags: vec![],
        next: Some(Box::new(SerializableContinuation::Task {
            id: "step1".to_string(), // Duplicate!
            timeout_ms: None,
            retry_policy: None,
            version: None,
            priority: None,

            tags: vec![],
            next: None,
        })),
    };

    // to_runnable should detect the tampering
    let result = tampered.to_runnable(&registry);
    assert!(matches!(
        result,
        Err(BuildError::DuplicateTaskId(id)) if id == "step1"
    ));
}

#[test]
fn test_delay_builder() {
    let ctx = WorkflowContext::new("test-workflow", Arc::new(DummyCodec), Arc::new(()));
    let workflow: Workflow<DummyCodec, u32> = WorkflowBuilder::new(ctx)
        .then::<u32>("step1", task())
        .delay("wait_1s", Duration::from_secs(1))
        .then::<u32>("step2", task())
        .build()
        .unwrap();

    // Verify the chain structure: Task -> Delay -> Task
    let mut ids = vec![];
    let mut current = workflow.continuation();
    loop {
        match current {
            WorkflowContinuation::Task { id, next, .. } => {
                ids.push(format!("task:{id}"));
                match next {
                    Some(n) => current = n,
                    None => break,
                }
            }
            WorkflowContinuation::Delay {
                id, duration, next, ..
            } => {
                ids.push(format!("delay:{id}:{}ms", duration.as_millis()));
                match next {
                    Some(n) => current = n,
                    None => break,
                }
            }
            _ => break,
        }
    }

    assert_eq!(
        ids,
        vec!["task:step1", "delay:wait_1s:1000ms", "task:step2"]
    );
}

#[test]
fn test_delay_serialization_roundtrip() {
    let ctx = WorkflowContext::new("test-workflow", Arc::new(DummyCodec), Arc::new(()));
    let workflow = WorkflowBuilder::<_, u32, _>::new(ctx)
        .with_registry()
        .then::<u32>("step1", task())
        .delay("wait_5s", Duration::from_secs(5))
        .then::<u32>("step2", task())
        .build()
        .unwrap();

    // Convert to serializable
    let serializable = workflow.to_serializable();

    // Check structure
    let task_ids = serializable.continuation.task_ids();
    assert_eq!(task_ids, vec!["step1", "wait_5s", "step2"]);

    // Check delay duration is preserved
    match &serializable.continuation {
        SerializableContinuation::Task { next, .. } => {
            let next = next.as_ref().unwrap();
            match next.as_ref() {
                SerializableContinuation::Delay {
                    id, duration_ms, ..
                } => {
                    assert_eq!(id, "wait_5s");
                    assert_eq!(*duration_ms, 5000);
                }
                _ => panic!("Expected Delay"),
            }
        }
        _ => panic!("Expected Task"),
    }

    // Hydrate back to runnable
    let hydrated = workflow.to_runnable(&serializable);
    assert!(hydrated.is_ok());
}

#[test]
fn test_delay_first_task_id() {
    let ctx = WorkflowContext::new("test-workflow", Arc::new(DummyCodec), Arc::new(()));
    let workflow = WorkflowBuilder::<_, u32, _>::new(ctx)
        .delay("initial_delay", Duration::from_secs(10))
        .then::<u32>("step1", task())
        .build()
        .unwrap();

    assert_eq!(workflow.continuation().first_task_id(), "initial_delay");
}

#[test]
fn test_delay_duplicate_id_detection() {
    let ctx = WorkflowContext::new("test-workflow", Arc::new(DummyCodec), Arc::new(()));
    let result = WorkflowBuilder::<_, u32, _>::new(ctx)
        .then::<u32>("dup", task())
        .delay("dup", Duration::from_secs(1))
        .build();

    let err = match result {
        Err(e) => e,
        Ok(_) => panic!("expected build error"),
    };
    assert!(
        err.iter()
            .any(|e| matches!(e, BuildError::DuplicateTaskId(id) if id == "dup"))
    );
}

#[test]
fn test_delay_definition_hash_includes_duration() {
    // Workflow with 1-second delay
    let ctx1 = WorkflowContext::new("workflow", Arc::new(DummyCodec), Arc::new(()));
    let wf1: SerializableWorkflow<_, u32> = WorkflowBuilder::new(ctx1)
        .with_registry()
        .then::<u32>("step1", task())
        .delay("wait", Duration::from_secs(1))
        .build()
        .unwrap();

    // Workflow with 60-second delay (same ID, different duration)
    let ctx2 = WorkflowContext::new("workflow", Arc::new(DummyCodec), Arc::new(()));
    let wf2: SerializableWorkflow<_, u32> = WorkflowBuilder::new(ctx2)
        .with_registry()
        .then::<u32>("step1", task())
        .delay("wait", Duration::from_secs(60))
        .build()
        .unwrap();

    // Hashes should differ because duration differs
    assert_ne!(wf1.definition_hash(), wf2.definition_hash());
}

#[test]
fn test_delay_definition_hash_differs_from_task() {
    // Workflow with task
    let ctx1 = WorkflowContext::new("workflow", Arc::new(DummyCodec), Arc::new(()));
    let wf1: SerializableWorkflow<_, u32> = WorkflowBuilder::new(ctx1)
        .with_registry()
        .then::<u32>("step1", task())
        .build()
        .unwrap();

    // Workflow with delay instead
    let ctx2 = WorkflowContext::new("workflow", Arc::new(DummyCodec), Arc::new(()));
    let wf2: SerializableWorkflow<_, u32> = WorkflowBuilder::new(ctx2)
        .with_registry()
        .delay("step1", Duration::from_secs(1))
        .build()
        .unwrap();

    // Hashes should differ (Task vs Delay are tagged differently)
    assert_ne!(wf1.definition_hash(), wf2.definition_hash());
}

#[test]
fn test_delay_task_ids() {
    let ctx = WorkflowContext::new("test-workflow", Arc::new(DummyCodec), Arc::new(()));
    let workflow = WorkflowBuilder::<_, u32, _>::new(ctx)
        .then::<u32>("fetch", task())
        .delay("wait_24h", Duration::from_secs(86400))
        .then::<u32>("process", task())
        .build()
        .unwrap();

    let serializable = workflow.continuation().to_serializable();
    let ids = serializable.task_ids();
    assert_eq!(ids, vec!["fetch", "wait_24h", "process"]);
}

#[test]
fn test_delay_only_workflow() {
    let ctx = WorkflowContext::new("test-workflow", Arc::new(DummyCodec), Arc::new(()));
    let workflow: Workflow<DummyCodec, u32> = WorkflowBuilder::new(ctx)
        .delay("just_wait", Duration::from_millis(10))
        .build()
        .unwrap();

    assert_eq!(workflow.continuation().first_task_id(), "just_wait");

    let serializable = workflow.continuation().to_serializable();
    assert_eq!(serializable.task_ids(), vec!["just_wait"]);
}

#[test]
fn test_delay_to_runnable_no_registry_needed() {
    // A delay doesn't need a registry entry (it has no func)
    let delay = SerializableContinuation::Delay {
        id: "wait".to_string(),
        duration_ms: 5000,
        next: None,
    };

    let empty_registry = TaskRegistry::new();
    let result = delay.to_runnable(&empty_registry);
    assert!(result.is_ok());

    let runnable = result.unwrap();
    match runnable {
        WorkflowContinuation::Delay {
            id, duration, next, ..
        } => {
            assert_eq!(id, "wait");
            assert_eq!(duration, Duration::from_millis(5000));
            assert!(next.is_none());
        }
        _ => panic!("Expected Delay variant"),
    }
}

#[test]
fn test_timeout_serialization_roundtrip() {
    let ctx = WorkflowContext::new("test-workflow", Arc::new(DummyCodec), Arc::new(()));
    let workflow = WorkflowBuilder::<_, u32, _>::new(ctx)
        .with_registry()
        .then::<u32>("step1", task())
        .with_metadata(TaskMetadata {
            timeout: Some(Duration::from_secs(30)),
            ..Default::default()
        })
        .then::<u32>("step2", task())
        .build()
        .unwrap();

    // Convert to serializable
    let serializable = workflow.to_serializable();

    // Check timeout is preserved in serialization
    match &serializable.continuation {
        SerializableContinuation::Task { id, timeout_ms, .. } => {
            assert_eq!(id, "step1");
            assert_eq!(*timeout_ms, Some(30_000));
        }
        _ => panic!("Expected Task"),
    }

    // Hydrate back to runnable and verify timeout
    let hydrated = workflow.to_runnable(&serializable).unwrap();
    match &hydrated {
        WorkflowContinuation::Task { id, timeout, .. } => {
            assert_eq!(id, "step1");
            assert_eq!(*timeout, Some(Duration::from_secs(30)));
        }
        _ => panic!("Expected Task variant"),
    }
}

#[test]
fn test_timeout_changes_definition_hash() {
    // Workflow without timeout
    let ctx1 = WorkflowContext::new("workflow", Arc::new(DummyCodec), Arc::new(()));
    let wf1: SerializableWorkflow<_, u32> = WorkflowBuilder::new(ctx1)
        .with_registry()
        .then::<u32>("step1", task())
        .build()
        .unwrap();

    // Workflow with timeout (same ID, different timeout)
    let ctx2 = WorkflowContext::new("workflow", Arc::new(DummyCodec), Arc::new(()));
    let wf2: SerializableWorkflow<_, u32> = WorkflowBuilder::new(ctx2)
        .with_registry()
        .then::<u32>("step1", task())
        .with_metadata(TaskMetadata {
            timeout: Some(Duration::from_secs(30)),
            ..Default::default()
        })
        .build()
        .unwrap();

    // Hashes should differ because timeout differs
    assert_ne!(wf1.definition_hash(), wf2.definition_hash());
}

#[test]
fn test_task_version_changes_definition_hash() {
    // Workflow without version
    let ctx1 = WorkflowContext::new("workflow", Arc::new(DummyCodec), Arc::new(()));
    let wf_no_version: SerializableWorkflow<_, u32> = WorkflowBuilder::new(ctx1)
        .with_registry()
        .then::<u32>("step1", task())
        .build()
        .unwrap();

    // Workflow with version "1.0"
    let ctx2 = WorkflowContext::new("workflow", Arc::new(DummyCodec), Arc::new(()));
    let wf_v1: SerializableWorkflow<_, u32> = WorkflowBuilder::new(ctx2)
        .with_registry()
        .then::<u32>("step1", task())
        .with_metadata(TaskMetadata {
            version: Some("1.0".into()),
            ..Default::default()
        })
        .build()
        .unwrap();

    // Workflow with version "2.0"
    let ctx3 = WorkflowContext::new("workflow", Arc::new(DummyCodec), Arc::new(()));
    let wf_v2: SerializableWorkflow<_, u32> = WorkflowBuilder::new(ctx3)
        .with_registry()
        .then::<u32>("step1", task())
        .with_metadata(TaskMetadata {
            version: Some("2.0".into()),
            ..Default::default()
        })
        .build()
        .unwrap();

    // Same version produces same hash
    let ctx4 = WorkflowContext::new("workflow", Arc::new(DummyCodec), Arc::new(()));
    let wf_v1_again: SerializableWorkflow<_, u32> = WorkflowBuilder::new(ctx4)
        .with_registry()
        .then::<u32>("step1", task())
        .with_metadata(TaskMetadata {
            version: Some("1.0".into()),
            ..Default::default()
        })
        .build()
        .unwrap();

    assert_ne!(
        wf_no_version.definition_hash(),
        wf_v1.definition_hash(),
        "Adding version should change hash"
    );
    assert_ne!(
        wf_v1.definition_hash(),
        wf_v2.definition_hash(),
        "Different versions should produce different hashes"
    );
    assert_eq!(
        wf_v1.definition_hash(),
        wf_v1_again.definition_hash(),
        "Same version should produce same hash"
    );
}

#[test]
fn test_nodes_single_task() {
    let ctx = WorkflowContext::new("test-workflow", Arc::new(DummyCodec), Arc::new(()));
    let workflow: Workflow<DummyCodec, u32> = WorkflowBuilder::new(ctx)
        .then::<u32>("only", task())
        .build()
        .unwrap();

    let nodes: Vec<_> = workflow.iter_nodes().collect_all();
    assert_eq!(nodes.len(), 1);
    assert_eq!(nodes[0].id, "only");
    assert_eq!(nodes[0].kind, NodeKind::Task);
    assert!(nodes[0].predecessor_id.is_none());
}

#[test]
fn test_nodes_chain_order() {
    let ctx = WorkflowContext::new("test-workflow", Arc::new(DummyCodec), Arc::new(()));
    let workflow: Workflow<DummyCodec, u32> = WorkflowBuilder::new(ctx)
        .then::<u32>("a", task())
        .then::<u32>("b", task())
        .then::<u32>("c", task())
        .build()
        .unwrap();

    let nodes: Vec<_> = workflow.iter_nodes().collect_all();
    let ids: Vec<&str> = nodes.iter().map(|n| n.id).collect();
    assert_eq!(ids, vec!["a", "b", "c"]);
    assert!(nodes.iter().all(|n| n.kind == NodeKind::Task));

    // Predecessor chain
    assert_eq!(nodes[0].predecessor_id, None);
    assert_eq!(nodes[1].predecessor_id, Some("a"));
    assert_eq!(nodes[2].predecessor_id, Some("b"));
}

#[test]
fn test_nodes_fork_with_join() {
    let ctx = WorkflowContext::new("test-workflow", Arc::new(DummyCodec), Arc::new(()));
    let workflow: Workflow<DummyCodec, u32> = WorkflowBuilder::new(ctx)
        .then::<u32>("prepare", task())
        .branches(|mut b| {
            b.add("left", task());
            b.add("right", task());
            b
        })
        .join::<u32>("merge", task())
        .build()
        .unwrap();

    let nodes: Vec<_> = workflow.iter_nodes().collect_all();
    let ids: Vec<&str> = nodes.iter().map(|n| n.id).collect();

    // prepare → fork → (left, right) → merge
    assert_eq!(ids[0], "prepare");
    assert_eq!(nodes[1].kind, NodeKind::Fork);
    assert!(ids.contains(&"left"));
    assert!(ids.contains(&"right"));
    assert_eq!(*ids.last().unwrap(), "merge");

    // Fork's predecessor is prepare
    assert_eq!(nodes[1].predecessor_id, Some("prepare"));

    // Branches' predecessor is the fork node
    let fork_id = nodes[1].id;
    let left_node = nodes.iter().find(|n| n.id == "left").unwrap();
    let right_node = nodes.iter().find(|n| n.id == "right").unwrap();
    assert_eq!(left_node.predecessor_id, Some(fork_id));
    assert_eq!(right_node.predecessor_id, Some(fork_id));

    // Merge's predecessor is the fork node
    let merge_node = nodes.iter().find(|n| n.id == "merge").unwrap();
    assert_eq!(merge_node.predecessor_id, Some(fork_id));
}

#[test]
fn test_nodes_loop() {
    let ctx = WorkflowContext::new("test-workflow", Arc::new(DummyCodec), Arc::new(()));
    let workflow: Workflow<DummyCodec, u32> = WorkflowBuilder::new(ctx)
        .loop_task::<u32>("iterate", task(), 5)
        .then::<u32>("after", task())
        .build()
        .unwrap();

    let nodes: Vec<_> = workflow.iter_nodes().collect_all();

    // loop_0 (Loop) → iterate (Task, body) → after (Task, next)
    assert_eq!(nodes[0].kind, NodeKind::Loop);
    assert_eq!(nodes[1].id, "iterate");
    assert_eq!(nodes[1].kind, NodeKind::Task);
    assert_eq!(nodes[2].id, "after");
    assert_eq!(nodes[2].kind, NodeKind::Task);

    // Predecessors
    assert_eq!(nodes[0].predecessor_id, None);
    assert_eq!(nodes[1].predecessor_id, Some(nodes[0].id)); // body → loop
    assert_eq!(nodes[2].predecessor_id, Some(nodes[0].id)); // next → loop
}

#[test]
fn test_nodes_delay_reports_duration_as_timeout() {
    let ctx = WorkflowContext::new("test-workflow", Arc::new(DummyCodec), Arc::new(()));
    let workflow: Workflow<DummyCodec, u32> = WorkflowBuilder::new(ctx)
        .delay("wait_5s", Duration::from_secs(5))
        .then::<u32>("after", task())
        .build()
        .unwrap();

    let nodes: Vec<_> = workflow.iter_nodes().collect_all();
    assert_eq!(nodes[0].id, "wait_5s");
    assert_eq!(nodes[0].kind, NodeKind::Delay);
    assert_eq!(nodes[0].timeout, Some(Duration::from_secs(5)));
    assert_eq!(nodes[0].predecessor_id, None);

    assert_eq!(nodes[1].id, "after");
    assert_eq!(nodes[1].predecessor_id, Some("wait_5s"));
}

#[test]
fn test_nodes_metadata_extraction() {
    let retry = RetryPolicy {
        max_retries: 3,
        initial_delay: Duration::from_millis(100),
        backoff_multiplier: "2".into(),
        max_delay: Some(Duration::from_secs(10)),
    };

    let ctx = WorkflowContext::new("test-workflow", Arc::new(DummyCodec), Arc::new(()));
    let workflow = WorkflowBuilder::<_, u32, _>::new(ctx)
        .with_registry()
        .then::<u32>("step", task())
        .with_metadata(TaskMetadata {
            timeout: Some(Duration::from_secs(30)),
            retries: Some(retry.clone()),
            version: Some("2.0".into()),
            ..Default::default()
        })
        .build()
        .unwrap();

    let nodes: Vec<_> = workflow.iter_nodes().collect_all();
    assert_eq!(nodes.len(), 1);
    let node = &nodes[0];

    assert_eq!(node.id, "step");
    assert_eq!(node.kind, NodeKind::Task);
    assert_eq!(node.timeout, Some(Duration::from_secs(30)));
    assert_eq!(node.retry_policy.unwrap().max_retries, 3);
}

fn leaf(id: &str) -> SerializableContinuation {
    SerializableContinuation::Task {
        id: id.to_string(),
        timeout_ms: None,
        retry_policy: None,
        version: None,
        priority: None,
        tags: vec![],
        next: None,
    }
}

fn tree(kind: u8, depth: u8, prefix: &str) -> SerializableContinuation {
    let id = format!("{prefix}n");
    if depth == 0 {
        return leaf(&id);
    }
    let inner = |name: &str, step: u8| {
        Box::new(tree((kind + step) % 7, depth - 1, &format!("{prefix}{name}_")))
    };
    match kind {
        0 => SerializableContinuation::Task {
            id,
            timeout_ms: Some(u64::MAX),
            retry_policy: None,
            version: None,
            priority: None,
            tags: vec![],
            next: Some(inner("0", 1)),
        },
        1 => SerializableContinuation::Fork {
            id,
            branches: vec![*inner("b0", 1), *inner("b1", 2)],
            join: Some(inner("j", 3)),
        },
        2 => SerializableContinuation::Delay { id, duration_ms: 7, next: Some(inner("d", 1)) },
        3 => SerializableContinuation::AwaitSignal {
            id,
            signal_name: "sig".into(),
            timeout_ms: None,
            next: Some(inner("s", 1)),
        },
        4 => {
            let mut branches = StringMap::new();
            branches.insert("k1".to_string(), inner("br1", 1));
            branches.insert("k0".to_string(), inner("br0", 2));
            SerializableContinuation::Branch {
                id,
                branches,
                default: Some(inner("bd", 3)),
                next: Some(inner("bn", 4)),
            }
        }
        5 => SerializableContinuation::Loop {
            id,
            body: inner("lb", 1),
            max_iterations: 3,
            on_max: MaxIterationsPolicy::Fail,
            next: Some(inner("ln", 2)),
        },
        _ => SerializableContinuation::ChildWorkflow {
            id,
            child: inner("cc", 1),
            next: Some(inner("cn", 2)),
        },
    }
}

fn set_root_id(cont: &mut SerializableContinuation, new_id: &str) {
    match cont {
        SerializableContinuation::Task { id, .. }
        | SerializableContinuation::Fork { id, .. }
        | SerializableContinuation::Delay { id, .. }
        | SerializableContinuation::AwaitSignal { id, .. }
        | SerializableContinuation::Branch { id, .. }
        | SerializableContinuation::Loop { id, .. }
        | SerializableContinuation::ChildWorkflow { id, .. } => *id = new_id.to_string(),
    }
}

#[test]
fn hash_is_deterministic() {
    for kind in 0..7 {
        let cont = tree(kind, 3, "r_");
        assert_eq!(cont.compute_definition_hash(), cont.compute_definition_hash());
        assert_eq!(
            cont.compute_definition_hash(),
            tree(kind, 3, "r_").compute_definition_hash(),
        );
        assert_ne!(
            cont.compute_definition_hash(),
            tree((kind + 1) % 7, 3, "r_").compute_definition_hash(),
        );
    }
}

#[test]
fn unique_ids_means_none() {
    for kind in 0..7 {
        assert!(tree(kind, 3, "r_").find_duplicate_id().is_none());
    }
}

#[test]
fn injected_duplicate_is_detected() {
    for kind in 0..7 {
        let mut cont = tree(kind, 3, "r_");
        let second = cont.task_ids()[1].to_string();
        set_root_id(&mut cont, &second);
        assert_eq!(cont.find_duplicate_id(), Some(second));
    }
}

#[test]
fn definition_hash_of_one_task() {
    let cont = leaf("step1");
    assert_eq!(
        cont.compute_definition_hash(),
        sayiir::hash32::Hash32::sha256(cont.canonical_text().as_bytes()).to_hex(),
    );
    assert_eq!(cont.canonical_text(), "T:step1;");
    assert_eq!(
        cont.compute_definition_hash(),
        "c350c63e6e8590d49bef9b15cae46869e1ff5fd28305e653c5b569bad4bd4bfa",
    );
}

#[test]
fn arms_are_hashed_and_walked_in_key_order() {
    let arms = |first: &str, second: &str| {
        let mut branches = StringMap::new();
        branches.insert(first.to_string(), Box::new(leaf(&format!("task_{first}"))));
        branches.insert(second.to_string(), Box::new(leaf(&format!("task_{second}"))));
        SerializableContinuation::Branch {
            id: "branch_1".into(),
            branches,
            default: None,
            next: None,
        }
    };
    let a = arms("x", "y");
    let b = arms("y", "x");
    assert_eq!(a.compute_definition_hash(), b.compute_definition_hash());
    assert_eq!(b.task_ids(), vec!["branch_1", "task_x", "task_y"]);
}

#[test]
fn what_is_set_of_a_task_is_read_back() {
    let ctx = WorkflowContext::new("wf", Arc::new(DummyCodec), Arc::new(()));
    let workflow: Workflow<DummyCodec, u32> = WorkflowBuilder::new(ctx)
        .then::<u32>("a", task())
        .loop_task::<u32>("b", task(), 3)
        .branches(|mut b| {
            b.add("c", task());
            b.add("d", task());
            b
        })
        .join::<u32>("e", task())
        .build()
        .unwrap();
    let mut cont = workflow.into_continuation();
    for id in ["a", "b", "e"] {
        cont.set_task_timeout(id, Some(Duration::from_secs(9)));
        assert_eq!(cont.get_task_timeout(id), Some(Duration::from_secs(9)));
        cont.set_task_version(id, Some("2".into()));
    }
    // Branches of a fork are shared, and are not changed.
    cont.set_task_timeout("c", Some(Duration::from_secs(9)));
    assert_eq!(cont.get_task_timeout("c"), None);
    assert_eq!(
        cont.to_serializable().task_ids(),
        vec!["a", "loop_0", "b", "c||d", "c", "d", "e"],
    );
}

#[test]
fn rehydrated_workflow_has_the_same_hash() {
    let ctx = WorkflowContext::new("wf", Arc::new(DummyCodec), Arc::new(()));
    let workflow = WorkflowBuilder::<_, u32, _>::new(ctx)
        .with_registry()
        .then::<u32>("a", TaskHandle { index: 4 })
        .loop_task_with_policy::<u32>(
            "b",
            TaskHandle { index: 5 },
            3,
            MaxIterationsPolicy::ExitWithLast,
        )
        .wait_for_signal("s", "approval", Some(Duration::from_secs(1)))
        .build()
        .unwrap();
    let state = workflow.to_serializable();
    let back = workflow.to_runnable(&state).unwrap();
    assert_eq!(
        back.to_serializable().compute_definition_hash(),
        workflow.definition_hash(),
    );
    match back {
        WorkflowContinuation::Task { func, .. } => assert_eq!(func, Some(TaskHandle { index: 4 })),
        _ => panic!("Expected Task"),
    }
}
