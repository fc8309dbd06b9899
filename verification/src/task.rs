//! Task metadata, retry policies and handles of task implementations.
use crate::duration::Duration;
use crate::priority::Priority;
use crate::text;
use crate::text::{clone_opt_text, clone_texts};
use std::marker::PhantomData;
use vstd::prelude::*;

verus! {

/// The number under which a task implementation is kept by the executor.
#[derive(Debug, Clone, Copy, PartialEq, Eq, Structural)]
pub struct TaskHandle {
    /// Position of the implementation in the executor's table.
    pub index: u64,
}

/// Configuration for retrying failed task executions.
#[derive(Debug)]
pub struct RetryPolicy {
    /// Maximum number of retries after the initial attempt.
    pub max_retries: u32,
    /// Initial delay before the first retry.
    pub initial_delay: Duration,
    /// Multiplier applied to the delay after each retry, as its shortest decimal numeral.
    pub backoff_multiplier: String,
    /// Maximum delay between retries (caps exponential growth).
    pub max_delay: Option<Duration>,
}

/// What a [`RetryPolicy`] says.
pub struct Retry {
    pub max_retries: u32,
    pub initial_delay: Duration,
    pub backoff_multiplier: Seq<char>,
    pub max_delay: Option<Duration>,
}

impl View for RetryPolicy {
    type V = Retry;

    open spec fn view(&self) -> Retry {
        Retry {
            max_retries: self.max_retries,
            initial_delay: self.initial_delay,
            backoff_multiplier: self.backoff_multiplier@,
            max_delay: self.max_delay,
        }
    }
}

impl Clone for RetryPolicy {
    fn clone(&self) -> (r: Self)
        ensures
            r == *self,
    {
        RetryPolicy {
            max_retries: self.max_retries,
            initial_delay: self.initial_delay,
            backoff_multiplier: self.backoff_multiplier.clone(),
            max_delay: self.max_delay,
        }
    }
}

/// What an optional [`RetryPolicy`] says.
pub open spec fn opt_retry(o: Option<RetryPolicy>) -> Option<Retry> {
    match o {
        Some(p) => Some(p@),
        None => None,
    }
}

/// A copy of an optional retry policy.
pub fn clone_opt_retry(o: &Option<RetryPolicy>) -> (r: Option<RetryPolicy>)
    ensures
        r == *o,
{
    match o {
        Some(p) => Some(p.clone()),
        None => None,
    }
}

/// Metadata associated with a task definition.
#[derive(Debug)]
pub struct TaskMetadata {
    /// Human-readable name for the task (for UI/logging).
    pub display_name: Option<String>,
    /// Description of what the task does.
    pub description: Option<String>,
    /// Maximum time the task is allowed to run.
    pub timeout: Option<Duration>,
    /// Retry policy for failed task executions.
    pub retries: Option<RetryPolicy>,
    /// Version of the task, part of the definition hash.
    pub version: Option<String>,
    /// Execution priority.
    pub priority: Option<Priority>,
    /// Tags for categorization and worker affinity.
    pub tags: Vec<String>,
}

/// What a [`TaskMetadata`] says.
pub struct Meta {
    pub display_name: Option<Seq<char>>,
    pub description: Option<Seq<char>>,
    pub timeout: Option<Duration>,
    pub retries: Option<Retry>,
    pub version: Option<Seq<char>>,
    pub priority: Option<Priority>,
    pub tags: Seq<Seq<char>>,
}

impl View for TaskMetadata {
    type V = Meta;

    open spec fn view(&self) -> Meta {
        Meta {
            display_name: text::opt_text(self.display_name),
            description: text::opt_text(self.description),
            timeout: self.timeout,
            retries: opt_retry(self.retries),
            version: text::opt_text(self.version),
            priority: self.priority,
            tags: text::texts(self.tags@),
        }
    }
}

/// Metadata that configures nothing.
pub open spec fn no_meta() -> Meta {
    Meta {
        display_name: None,
        description: None,
        timeout: None,
        retries: None,
        version: None,
        priority: None,
        tags: seq![],
    }
}

impl Default for TaskMetadata {
    fn default() -> (r: Self)
        ensures
            r@ == no_meta(),
    {
        let r = TaskMetadata {
            display_name: None,
            description: None,
            timeout: None,
            retries: None,
            version: None,
            priority: None,
            tags: Vec::new(),
        };
        proof {
            assert(r@.tags =~= no_meta().tags);
        }
        r
    }
}

impl Clone for TaskMetadata {
    fn clone(&self) -> (r: Self)
        ensures
            r@ == self@,
    {
        TaskMetadata {
            display_name: clone_opt_text(&self.display_name),
            description: clone_opt_text(&self.description),
            timeout: self.timeout,
            retries: clone_opt_retry(&self.retries),
            version: clone_opt_text(&self.version),
            priority: self.priority,
            tags: clone_texts(&self.tags),
        }
    }
}

impl TaskMetadata {
    /// The metadata that a node's own fields describe. A priority outside of the
    /// known levels is dropped.
    pub fn from_node_fields(
        timeout: Option<Duration>,
        retries: Option<RetryPolicy>,
        version: Option<String>,
        priority: Option<u8>,
        tags: Vec<String>,
    ) -> (r: Self)
        ensures
            r@ == node_meta(
                timeout,
                opt_retry(retries),
                text::opt_text(version),
                priority,
                text::texts(tags@),
            ),
    {
        TaskMetadata {
            display_name: None,
            description: None,
            timeout,
            retries,
            version,
            priority: match priority {
                Some(p) => Priority::from_u8(p),
                None => None,
            },
            tags,
        }
    }
}

/// The metadata that a task node describes.
pub open spec fn node_meta(
    timeout: Option<Duration>,
    retries: Option<Retry>,
    version: Option<Seq<char>>,
    priority: Option<u8>,
    tags: Seq<Seq<char>>,
) -> Meta {
    Meta {
        display_name: None,
        description: None,
        timeout,
        retries,
        version,
        priority: match priority {
            Some(p) => crate::priority::level(p),
            None => None,
        },
        tags,
    }
}

/// What a task declares of itself, with its implementation.
pub struct TaskDefinition {
    /// The id of the task.
    pub task_id: String,
    /// The metadata of the task.
    pub metadata: TaskMetadata,
    /// The implementation.
    pub handle: TaskHandle,
}

/// A branch of a fork: a task of its own.
pub struct ErasedBranch {
    /// The id of the branch.
    pub id: String,
    /// The implementation.
    pub task: TaskHandle,
}

/// A branch of a fork.
pub fn branch(id: &str, task: TaskHandle) -> (r: ErasedBranch)
    ensures
        r.id@ == id@,
        r.task == task,
{
    ErasedBranch { id: String::from_str(id), task }
}

/// The output of a conditional branch: the routing key and the result of its arm.
#[derive(Debug, Clone, PartialEq, Eq)]
pub struct BranchEnvelope<T> {
    /// The routing key that was selected.
    pub branch: String,
    /// The result of the arm.
    pub result: T,
}

/// A task: a unit of work that takes an input to a future output.
pub trait CoreTask {
    /// The type of the input.
    type Input;

    /// The type of the output.
    type Output;

    /// What a run hands back: the output to come.
    type Future;

    /// The inputs on which the task may run: all of them, unless it says otherwise.
    open spec fn accepts(&self, input: Self::Input) -> bool {
        true
    }

    /// What a run on an input may hand back: anything, unless the task says otherwise.
    open spec fn may_return(&self, input: Self::Input, result: Self::Future) -> bool {
        true
    }

    /// Run the task.
    fn run(&self, input: Self::Input) -> (r: Self::Future)
        requires
            self.accepts(input),
        ensures
            self.may_return(input, r),
    ;
}

/// A function as a task.
pub struct FnTask<F, I, O, Fut> {
    /// The function.
    pub func: F,
    /// Its input, the output to come, and what it hands back.
    pub types: PhantomData<(I, O, Fut)>,
}

impl<F: Fn(I) -> Fut, I, O, Fut> CoreTask for FnTask<F, I, O, Fut> {
    type Input = I;

    type Output = O;

    type Future = Fut;

    open spec fn accepts(&self, input: I) -> bool {
        self.func.requires((input,))
    }

    open spec fn may_return(&self, input: I, result: Fut) -> bool {
        self.func.ensures((input,), result)
    }

    fn run(&self, input: I) -> (r: Fut) {
        (self.func)(input)
    }
}

/// The task of a function.
pub fn fn_task<F: Fn(I) -> Fut, I, O, Fut>(f: F) -> (r: FnTask<F, I, O, Fut>)
    ensures
        r.func == f,
{
    FnTask { func: f, types: PhantomData }
}

} // verus!
