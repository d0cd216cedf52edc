//! The decisions of a file watcher on top of Darwin's FSEvents API, verified.
//!
//! FSEvents notifies its clients in bulk about directories that they ought to look at again. This
//! library decides everything that such a client has to decide: what the flags of an event mean
//! ([`translate`]), which events a receiver is owed ([`callback`]), which paths a stream covers and
//! when a stream is stopped and started ([`watcher`]), and what the thread of a stream does
//! ([`stream_thread`]). It makes no call into the operating system. It tells the platform which
//! calls to make, and is told what came of them ([`protocol`]).

pub mod batch_laws;
pub mod callback;
pub mod error;
pub mod event;
pub mod flags;
pub mod laws;
pub mod operation_laws;
pub mod path;
pub mod protocol;
pub mod recursive_info;
pub mod stream_thread;
pub mod translate;
pub mod watcher;

pub use watcher::FsEventWatcher;
