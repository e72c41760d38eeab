//! A host-side facade for an event-driven memory-system engine.
//!
//! The facade owns one engine instance, admits memory operations into its
//! queue, advances it one tick at a time, and delivers each completed
//! operation to a caller-supplied handler exactly once, synchronously,
//! during the tick in which it completes.

pub mod config;
pub mod event;
pub mod run;
pub mod slot;
pub mod system;

pub use config::Config;
pub use config::ConfigError;
pub use event::CompletionEvent;
pub use event::CompletionHandler;
pub use event::EventLog;
pub use system::MemorySystem;
pub use system::Pending;
