//! A lucky-draw selector for simultaneous touch contacts.
//!
//! Any number of participants place a finger on a shared surface. Once the
//! set of contacts has been stable for a moment a countdown runs, one contact
//! is picked, and the result is animated before the round resets.
//!
//! The crate holds the round state machine with its timers, the contact
//! registry, the winner selection and the radius animation. Rendering and
//! input capture belong to the caller, which feeds contact events and elapsed
//! time into a [`RoundMachine`] and reads the phase, the contacts and the
//! radius back.
pub mod color;
pub mod config;
pub mod contact;
pub mod laws;
pub mod machine;
pub mod model;
pub mod radius;
pub mod registry;
pub mod selection;
pub mod state;
pub mod text;

pub use config::{Config, ConfigError};
pub use contact::{Contact, TouchPoint};
pub use machine::RoundMachine;
pub use model::Round;
pub use radius::{Animation, Direction, RadiusDriver, Window};
pub use registry::ContactRegistry;
pub use selection::pick;
pub use state::State;
