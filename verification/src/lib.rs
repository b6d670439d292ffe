//! Progress tracking for a byte stream copied from a source to a sink:
//! the statistics of a transfer, their rendering as text, and the
//! decisions of the copy loop that reports them.

pub mod arith;
pub mod text;
pub mod human_bytes;
pub mod round_trip;
pub mod progress_stats;
pub mod progress_display;
pub mod pipe_viewer;

pub use pipe_viewer::PipeViewer;
pub use progress_stats::ProgressStats;
