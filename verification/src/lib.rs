//! Core of a durable workflow engine.
//!
//! A workflow is a tree of tasks, forks, delays, signals, routes, loops and child
//! workflows. This library builds such trees, fingerprints and stores them, keeps the
//! state of running instances in snapshots, says what the persistence backends read and
//! write, and expands the macros that define tasks and workflows. It runs nothing itself:
//! task implementations are known by their handles only.
//!
//! | Module | Purpose |
//! |---|---|
//! | [`builder`], [`fork_builder`], [`route_builder`] | Fluent construction of workflows |
//! | [`continuation_builder`] | Construction from a list of steps |
//! | [`continuation`], [`stored`], [`tree`] | The tree in memory, as stored, and as a value |
//! | [`workflow`] | Built workflows and their statuses |
//! | [`registry`], [`task`], [`task_index`] | Tasks, their metadata and implementations |
//! | [`snapshot`], [`snapshot_format`] | State of instances, and the header of stored blobs |
//! | [`task_claim`], [`task_search`] | Claims of workers and the search for ready tasks |
//! | `dynamodb_*`, [`sqlite_backend`] | What the backends read and write |
//! | [`task_macro`], [`workflow_grammar`], [`workflow_codegen`] | The macros |
//! | [`laws`], [`tree_laws`], [`change_laws`], [`hash_laws`] | What holds of trees and their hashes |
//! | [`builder_laws`], [`step_laws`], [`flow_laws`] | What holds of building workflows |
//! | [`grammar_laws`], [`macro_laws`], [`codegen_laws`] | What holds of the macros |
//! | [`snapshot_laws`], [`claim_laws`], [`search_laws`] | What holds of running instances |
//! | [`backend_laws`], [`dynamodb_laws`], [`sqlite_laws`], [`store_laws`] | What holds of the backends |
//! | [`value_laws`], [`error_laws`] | What holds of the smaller types |
pub mod backend_error;
pub mod backend_laws;
pub mod branch_key;
pub mod branch_results;
pub mod builder;
pub mod builder_laws;
pub mod change_laws;
pub mod claim_laws;
pub mod codec;
pub mod codegen_laws;
pub mod context;
pub mod continuation;
pub mod continuation_builder;
pub mod deps;
pub mod deps_check;
pub mod duration;
pub mod duration_lit;
pub mod dynamodb_claims;
pub mod dynamodb_events;
pub mod dynamodb_item;
pub mod dynamodb_laws;
pub mod dynamodb_store;
pub mod error;
pub mod error_laws;
pub mod flow_laws;
pub mod fork_builder;
pub mod grammar_laws;
pub mod hash32;
pub mod hash_laws;
pub mod laws;
pub mod loop_result;
pub mod macro_laws;
pub mod naming;
pub mod prelude;
pub mod priority;
pub mod registry;
pub mod route_builder;
pub mod rust_syntax;
pub mod search_laws;
pub mod snapshot;
pub mod snapshot_copy;
pub mod snapshot_format;
pub mod snapshot_laws;
pub mod sqlite_backend;
pub mod sqlite_laws;
pub mod step_laws;
pub mod store_laws;
pub mod stored;
pub mod string_map;
pub mod task;
pub mod task_claim;
pub mod task_index;
pub mod task_macro;
pub mod task_search;
pub mod text;
pub mod time;
pub mod tree;
pub mod tree_laws;
pub mod validation;
pub mod value_laws;
pub mod workflow;
pub mod workflow_codegen;
pub mod workflow_grammar;
pub mod workflow_macro;

pub use crate::hash32::{DefinitionHash, Hash32, TaskId};
pub use crate::loop_result::LoopResult;
pub use crate::task_index::{TaskIndex, TaskNodeMetadata};
pub use crate::validation::{validate_instance_id, InvalidInstanceId, MAX_INSTANCE_ID_LEN};
pub use crate::workflow::MaxIterationsPolicy;
