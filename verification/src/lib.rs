//! A progress-observable file-transfer core: the logic that a download or
//! upload pipeline needs in order to pass byte chunks through unchanged while
//! reporting byte-level progress to an observer at a bounded rate.
//!
//! The surrounding pipelines (HTTP client, file reader/writer, event sink)
//! are external collaborators; they feed this library plain values — chunk
//! lengths, arrival times, header pairs — and act on the decisions it
//! returns.

pub mod adapter;
pub mod error;
pub mod headers;
pub mod progress;

pub use adapter::relay_chunks;
pub use adapter::transfer_step;
pub use adapter::StepAction;
pub use adapter::StreamEvent;
pub use adapter::TransferLog;
pub use error::Error;
pub use headers::Headers;
pub use progress::ProgressSample;
pub use progress::ProgressTracker;
pub use progress::total_from_content_length;
pub use progress::EMIT_INTERVAL_MS;
