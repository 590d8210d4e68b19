//! Recognition of keyboard gestures over a stream of key events.
//!
//! A gesture is a chord, a set of keys that are held at once, or a two-step
//! sequence, a chord that is held and let go of, followed within a short
//! time by a second chord. The [`dispatcher::Dispatcher`] owns the set of
//! held keys and an ordered list of rules. It is handed one event at a
//! time, and answers with the rules that fired and with whether the event
//! is to be kept from the rest of the system.
//!
//! The library neither listens for keys nor acts on a gesture. Its caller
//! hands it each event, with the logical code that the key table gives the
//! key, and carries out what the answer asks for.
//!
//! - [`event`]: key events, before and after the key has its logical code.
//! - [`key_state`]: the set of held keys.
//! - [`rule`]: the two kinds of rule.
//! - [`dispatcher`]: the dispatcher and its answers.
//! - [`action`]: what the identifier of a fired rule asks for.
//! - [`clock`]: the clock by which sequences are timed.
//! - [`laws`]: what holds over whole runs of events.

pub mod action;
pub mod clock;
pub mod dispatcher;
pub mod event;
pub mod key_state;
pub mod laws;
pub mod rule;
