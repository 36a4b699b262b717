//! Composable state machines in the "decider" style.
//!
//! A decider consumes commands against a current state and produces events;
//! events are folded back into state through a separate evolution function.
//! This crate defines the four-operation decider contract, a symmetric
//! process contract for event-reactive command emitters, and a family of
//! combinators that build new deciders out of existing ones while preserving
//! the contract. Every operation is pure: its result is fixed by its
//! arguments, which is what the specifications attached to each trait state.

pub mod deciders;
pub mod processes;
pub mod utilities;
