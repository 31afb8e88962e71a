//! Tag-set mutation algebra, object-metadata validation, and the
//! validate-and-notify workflow that sequences them.
//!
//! The library is pure: every remote interaction (tag store reads and
//! writes, message delivery) is described as a request value that a thin
//! driver performs outside the library.

pub mod generate_tags;
pub mod validation;
pub mod workflow;

pub use generate_tags::GenerateTags;
pub use generate_tags::GetObjectTaggingOutput;
pub use generate_tags::Tag;
pub use generate_tags::TagSet;
pub use generate_tags::Tagging;
pub use validation::S3Entity;
pub use validation::is_valid_file;
pub use workflow::Response;
pub use workflow::Workflow;
pub use workflow::WorkflowAction;
pub use workflow::WorkflowConfig;
pub use workflow::WorkflowEvent;
