//! Verified core of a batch image-conversion pipeline.
//!
//! Given a list of input file paths, an output directory, a naming scheme and
//! a target format, the library plans a batch of conversion jobs with
//! deterministic, collision-free output paths, builds the argument list for
//! the external renderer, classifies its exit status, and tracks the batch
//! through its state machine so that completion is signalled exactly once.
//! All file, process and thread handling lives outside the library.

pub mod batch;
pub mod command;
pub mod digits;
pub mod error;
pub mod format;
pub mod namer;
pub mod runner;

pub use batch::{BatchJob, BatchResult, ConversionOutcome, ConversionRequest, FailedItem,
    NamingScheme, job_outcome, plan_batch, prepare_batch};
pub use command::{classify_exit, external_command_args, external_tool_path};
pub use digits::u32_to_decimal;
pub use error::ConversionError;
pub use format::{BackendKind, FormatTag, backend_of, extension_of, is_vector, selected_format};
pub use namer::{file_stem, name_for, name_for_stem, stems_distinct};
pub use runner::{BatchPhase, BatchRunner};
