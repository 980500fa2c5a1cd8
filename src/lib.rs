//! The selection engine of a multi-producer, multi-consumer channel library:
//! operation identifiers, the packed selection state, the fair shuffle, the
//! state machine that drives one selection, and the builder of cases.

pub mod engine;
pub mod operation;
pub mod select;
pub mod shuffle;
mod snapshot;

pub use engine::{Action, Engine, Event, Timeout};
pub use operation::{Operation, Selected};
pub use select::{Select, SelectedCase};
pub use shuffle::XorShift;
