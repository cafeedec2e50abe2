//! Batch execution of a shell command over lines of text.
//!
//! Lines are grouped into batches of a fixed size. Each line of a batch is
//! written to a scratch file of its own, the paths of those files are put
//! into a command template in place of a replacement token, and the command
//! is run through `sh`. What the command prints is paired, line by line, with
//! the lines of the batch.
//!
//! This crate holds every decision of such a run and performs none of its
//! input or output: a [`engine::BatchRun`] is told what happened through
//! [`engine::Event`]s and answers with the [`engine::Action`] to perform next.
//!
//! The parts of a run, each in a module of its own:
//!
//! - [`lines`]: from the bytes of a stream to its lines of text;
//! - [`partition`]: which lines belong to which batch;
//! - [`pool`]: what each scratch file is to hold for a batch;
//! - [`template`]: from the template and the paths of the files to the command;
//! - [`shell`]: how the shell reads the paths that the command names;
//! - [`subprocess`]: how the shell is called, and what its ending means;
//! - [`correlate`]: which line of output belongs to which line of input;
//! - [`engine`]: the run itself, one step at a time;
//! - [`trace`]: what holds of a run as a whole.

pub mod correlate;
pub mod engine;
pub mod error;
pub mod lines;
pub mod partition;
pub mod pool;
pub mod shell;
pub mod subprocess;
pub mod template;
pub mod text;
pub mod trace;

pub use engine::run;
pub use engine::run_batch_mode;
pub use engine::Action;
pub use engine::Args;
pub use engine::BatchRun;
pub use engine::Event;
pub use engine::Phase;
pub use engine::Reply;
pub use error::XcoprError;
