//! A snapshot of a window manager's published desktop state.
//!
//! The library turns the answers to the window manager's property queries into
//! one consistent [`State`], classifies raw state atoms, and decides, as an
//! explicit state machine, which property-change notifications call for a
//! fresh snapshot.
pub mod model;
pub mod atoms;
pub mod synthesis;
pub mod event_loop;

pub use model::{Desktop, State, Window, WindowState};
pub use atoms::AtomTable;
pub use synthesis::{active_handle, synthesize, ClientReply, SynthesisError};
pub use event_loop::{ChangeLoop, LoopAction, LoopEvent, Phase};
