//! The logic of the Thorium reactor: the daemon that polls the Thorium API for the desired
//! state of its node, and spawns and shuts down workers to match.
//!
//! The functions here decide and compute. What they read, run, send or ask of libvirt and of
//! the API is done by the program around them, which hands over what came of it.
//!
//! - [`args`], [`models`], [`error`]: what the rest speaks of
//! - [`reactor`], [`tasks`]: the loop of the daemon, its tasks and its updates
//! - [`bare_metal`]: workers that run directly on the host
//! - [`kvm`], [`reconcile`], [`creation`]: workers that run in virtual machines
//! - [`kvm_worker`], [`state`]: the states such a worker goes through
//! - [`guest_agent`], [`json`], [`encoding`]: the protocol of the QEMU guest agent
//! - [`os_detector`], [`xml`]: golden disk images and golden XML definitions
//! - [`proc_reader`]: process trees that Volatility 3 writes, and Sigma rules on them
//! - [`flags`]: remarks on entities in Thorium
//! - [`laws`]: what the operations promise, and how they fit together
//! - [`names`], [`lists`], [`text`], [`number`], [`paths`], [`time`], [`version`]: the values that all
//!   of it is made of

pub mod args;
pub mod bare_metal;
pub mod creation;
pub mod encoding;
pub mod error;
pub mod flags;
pub mod guest_agent;
pub mod json;
pub mod kvm;
pub mod kvm_worker;
pub mod laws;
pub mod lists;
pub mod models;
pub mod names;
pub mod number;
pub mod os_detector;
pub mod paths;
pub mod proc_reader;
pub mod reactor;
pub mod reconcile;
pub mod state;
pub mod tasks;
pub mod text;
pub mod time;
pub mod version;
pub mod xml;
