//! Memory subsystem of a small operating-system kernel, together with the
//! pure state and text logic of its surrounding services (clock, shell,
//! console settings, command history).
//!
//! The heart of the crate is a two-tier allocator:
//! a single global kernel heap and a quota-partitioned application arena
//! that leases isolated, independently managed sub-heaps to registered
//! application identities, with full usage accounting.  Both tiers share
//! one first-fit free-list allocator, [`freelist::FreeSpace`], which does
//! its bookkeeping over byte offsets; turning an offset into a hardware
//! address is the caller's concern.

use vstd::prelude::*;

pub mod arena;
pub mod commands;
pub mod display;
pub mod freelist;
pub mod heap;
pub mod history;
pub mod hud;
pub mod manager;
pub mod scan;
pub mod splash;
pub mod textfmt;
pub mod time;
pub mod timer;
pub mod wait;

verus! {

} // verus!
