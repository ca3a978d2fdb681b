//! # Sensor-Fuse
//!
//! An un-opinionated observer/callback framework, verified.
//!
//! Sensor data is taken to be:
//! - the raw data,
//! - a version counter whose lowest bit tells that the sensor is closed ([`version`]),
//! - a change detection strategy: an observer keeps the version that it has seen ([`observer`]),
//! - a locking strategy that allows atomic access to the raw data ([`sensor_core`], [`lock`]),
//! - an optional pointer that shares all of the above ([`writer`]).
//!
//! Observers can be mapped and fused into observers of other values. Waiting is decided one step
//! at a time ([`waiting`]): a step takes the version, the value or the outcome that it depends
//! on, and says whether the wait is over and who has to be woken. Whatever runs the steps, be it
//! a future or a thread, performs them.
//!
//! Functions that are handed in are called as their contracts allow. A function that may change
//! its own state is taken to be the same function before and after a call: what a contract says of
//! it speaks of what it may be called with and may return, not of the state it keeps to itself.
//!
//! Callbacks and wakers that are executed on updates are kept by managers ([`callback`],
//! [`callback_manager`]) and executors ([`executor`]).

pub mod callback;
pub mod callback_manager;
pub mod executor;
pub mod lock;
pub mod observer;
pub mod poll;
pub mod sensor_core;
pub mod version;
pub mod waiting;
pub mod writer;
