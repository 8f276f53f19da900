//! Debouncing and kick scheduling for a conveyor-belt brick sorter.
//!
//! A sensor's raw colour codes are classified ([`color`]) and smoothed over a
//! sliding window into a stable category ([`debounce`], with the vote in
//! [`vote`] and the window as a sequence in [`window`]). The sampling context
//! and the control context share that window behind a lock ([`shared`]). The
//! control loop ([`control`]) turns a stable category into a kick, and the
//! kick scheduler ([`kick`]) runs the kick as a state machine along the
//! trajectory that the configuration lays down ([`trajectory`], [`config`]);
//! what holds of whole kicks is proved in [`kick_run`].
//!
//! The library touches no hardware. Whoever drives the sensors and the
//! kicker hands it plain values and carries out the actions it returns.

pub mod color;
pub mod config;
pub mod control;
pub mod debounce;
pub mod kick;
pub mod kick_run;
pub mod shared;
pub mod trajectory;
pub mod vote;
pub mod window;
