//! Control plane of an input-device fusion daemon.
//!
//! Physical controller halves are admitted, observed for a pairing gesture,
//! and fused into a synthetic virtual device that relays input forward and
//! force-feedback backward.  This crate holds the verified logic: token
//! allocation, the readiness-dispatch registry, the pairing state machine,
//! the waiting and combined managers, the virtual-controller relay and
//! force-feedback correlation engine, and the orchestrator that routes
//! messages between them.  Device I/O itself (epoll, character devices,
//! hotplug monitoring) is performed by the surrounding binary, which hands
//! this crate plain values and carries out the effects it returns.

pub mod errors;
pub mod events;
pub mod controller;
pub mod key_allocator;
pub mod key_map;
pub mod poll_manager;
pub mod virtual_controller;
pub mod combined_controller_manager;
pub mod controller_manager;
pub mod waiting_controller_manager;
