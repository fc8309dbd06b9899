//! Common imports for workflow authors.
pub use crate::branch_key::BranchKey;
pub use crate::branch_results::{BranchOutputs, NamedBranchResults};
pub use crate::builder::WorkflowBuilder;
pub use crate::codec::{Codec, Decoder, Encoder, EnvelopeCodec};
pub use crate::context::WorkflowContext;
pub use crate::error::{BoxError, BuildError, BuildErrors, CodecError, WorkflowError};
pub use crate::registry::TaskRegistry;
pub use crate::stored::key_fn_id;
pub use crate::task::{fn_task, BranchEnvelope, CoreTask, TaskMetadata};
pub use crate::workflow::{SerializableWorkflow, Workflow};
