//! Lifecycle of a native compute engine that must be initialised once before
//! its first user and torn down once after its last.
//!
//! The engine is a process-wide singleton behind a C interface. Whoever needs
//! it holds a [`BackendRef`]; the handles are counted in one [`BackendSlot`].
//! The first handle brings the engine up, the last one to go tears it down.
//!
//! This crate decides and does not call: each operation on a handle changes
//! the slot and returns the [`NativeCall`]s that are due. The caller keeps the
//! slot behind one lock, and makes the returned calls in order before it
//! unlocks. [`history`] states what then holds of every sequence of
//! operations, in whatever order threads take the lock.

pub mod backend;
pub mod history;
pub mod native;
pub mod numa;

pub use backend::AlreadyFreed;
pub use backend::Backend;
pub use backend::BackendRef;
pub use backend::BackendSlot;
pub use native::NativeCall;
pub use numa::NumaStrategy;
pub use numa::UnknownNumaCode;
