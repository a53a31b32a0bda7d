//! Error taxonomy of the conversion pipeline.

use vstd::prelude::*;

verus! {

/// Why a conversion job, or the batch configuration, failed.
///
/// `ConfigError` is batch-fatal and is reported before any job is dispatched;
/// the other variants are per-item failures that never abort the batch.
#[derive(Clone, Copy, Debug, PartialEq, Eq, Structural)]
pub enum ConversionError {
    /// The format selection could not be resolved to a known format.
    ConfigError,
    /// The input could not be decoded (corrupt or unsupported file).
    DecodeError,
    /// The output could not be encoded or written.
    EncodeError,
    /// The external renderer failed to spawn (`None`) or exited with the
    /// given non-zero code (`Some(code)`).
    ExternalToolError(Option<i32>),
    /// The output directory was not writable.
    FilesystemError,
}

} // verus!
