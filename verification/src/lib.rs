//! Streaming download pipeline for Killing Floor 2 map packages.
//!
//! The library holds the decisions of the installer: how a transfer is
//! guarded against leaving a partial file, how progress is computed and
//! drawn, how a body is copied chunk by chunk, in which order the steps of a
//! fetch follow each other, and what is appended to the server configuration.
//! Reading sockets and touching the file system is left to the caller, who
//! hands them in as closures.

pub mod adapter;
pub mod config;
pub mod copier;
pub mod error;
pub mod fetch;
pub mod guard;
pub mod memory;
pub mod progress;
pub mod stream;
pub mod text;

pub use adapter::{FnObserver, FnSink, FnSource, ProgressReporter};
pub use config::{config_entry, update_config};
pub use copier::{copy_with_cb, judge_read, AfterRead, BUFFER_SIZE};
pub use error::{FetchError, IoError, IoErrorKind, PreconditionError};
pub use fetch::{
    download_map_file, download_url, map_filename, FetchAction, FetchEvent, FetchPhase,
    MapDownload,
};
pub use guard::{Disposal, DownloadFile};
pub use memory::{Fault, MemorySink, MemorySource, ProgressLog};
pub use progress::{percent, render, ProgressBar, TransferProgress, BAR_CELLS};
pub use stream::{ByteSink, ByteSource, ChunkObserver};
