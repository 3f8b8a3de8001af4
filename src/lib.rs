//! Boot, shutdown and event-stream orchestration for a desktop shell that
//! hosts a webview over an embedded backend runtime.
//!
//! Every decision is a verified state transition; the host runs the I/O and
//! hands each outcome back to these machines.
pub mod boot;
pub mod latch;
pub mod runtime;
pub mod shutdown;
pub mod step;
pub mod stream;
pub mod text;
