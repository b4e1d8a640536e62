//! A suspend/resume bridge between a single-threaded, cooperatively scheduled
//! coroutine host and a multi-threaded background task executor.
//!
//! The bridge owns, per host thread, the mapping between in-flight coroutines
//! and in-flight background tasks: a coroutine hands its suspension handle to
//! [`EventLoop::suspend_on`] and parks; a background task reports its
//! operation id when it finishes; the host, once its readiness loop sees the
//! notification descriptor become readable, drains the completed ids through
//! [`EventLoop::wakeup`] and resumes exactly the matching coroutines, each of
//! which then claims exactly the result its own task produced.
//!
//! The outside world — the task executor, the OS pipe, and the host's
//! suspend/resume primitives — is driven by the embedding layer; this crate
//! holds the verified bookkeeping and decision logic that ties them together.

pub mod borrow_unchecked;
pub mod event_loop;

pub use event_loop::BridgeError;
pub use event_loop::EventLoop;
pub use event_loop::HostEnv;
pub use event_loop::SuspensionHandle;
