//! Workflow execution context.
//!
//! [`WorkflowContext`] carries the workflow ID, codec, and user-supplied
//! metadata through every task execution. [`TaskExecutionContext`] is what a
//! running task may read of its workflow.
use crate::task::TaskMetadata;
use crate::text::clone_opt_text;
use std::sync::Arc;
use vstd::prelude::*;

verus! {

/// Execution context available to a running task.
#[derive(Debug)]
pub struct TaskExecutionContext {
    /// The workflow definition identifier.
    pub workflow_id: String,
    /// The workflow instance identifier.
    pub instance_id: String,
    /// The current task identifier.
    pub task_id: String,
    /// Task metadata (timeout, retry policy, version, etc.).
    pub metadata: TaskMetadata,
    /// Optional JSON-encoded workflow-level metadata.
    pub workflow_metadata_json: Option<String>,
}

/// Workflow execution context that provides access to metadata and codec.
pub struct WorkflowContext<C, M> {
    /// The unique workflow identifier.
    pub workflow_id: String,
    /// The codec used for serialization/deserialization.
    pub codec: Arc<C>,
    /// Immutable metadata attached to the workflow.
    pub metadata: Arc<M>,
    /// Optional JSON-encoded workflow-level metadata for task context.
    pub metadata_json: Option<String>,
}

impl<C, M> Clone for WorkflowContext<C, M> {
    fn clone(&self) -> (r: Self)
        ensures
            r == *self,
    {
        WorkflowContext {
            workflow_id: self.workflow_id.clone(),
            codec: self.codec.clone(),
            metadata: self.metadata.clone(),
            metadata_json: clone_opt_text(&self.metadata_json),
        }
    }
}

impl<C, M> WorkflowContext<C, M> {
    /// Create a new workflow context.
    pub fn new(workflow_id: &str, codec: Arc<C>, metadata: Arc<M>) -> (r: Self)
        ensures
            r.workflow_id@ == workflow_id@,
            r.codec == codec,
            r.metadata == metadata,
            r.metadata_json is None,
    {
        WorkflowContext {
            workflow_id: String::from_str(workflow_id),
            codec,
            metadata,
            metadata_json: None,
        }
    }

    /// Returns the workflow identifier.
    pub fn workflow_id(&self) -> (r: &str)
        ensures
            r@ == self.workflow_id@,
    {
        self.workflow_id.as_str()
    }

    /// Returns a clone of the codec `Arc`.
    pub fn codec(&self) -> (r: Arc<C>)
        ensures
            r == self.codec,
    {
        self.codec.clone()
    }

    /// Returns a clone of the metadata `Arc`.
    pub fn metadata(&self) -> (r: Arc<M>)
        ensures
            r == self.metadata,
    {
        self.metadata.clone()
    }
}

} // verus!
