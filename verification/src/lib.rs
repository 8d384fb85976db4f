//! Voice-activity driven audio routing: the decision layer of a half-duplex
//! intercom. Level readings of each capture source are debounced into a
//! silent/active signal, and the changes of that signal drive a pairing state
//! machine whose actions open and close the links between the sources.

pub mod devices;
pub mod hub;
pub mod levels;
pub mod monitor;
pub mod pairing;
pub mod silence;
pub mod sources;
pub mod text;
