//! Typed, owned state attached to objects of a reference-counted runtime.
//!
//! The runtime's memory is an arena of byte ranges handed out by an
//! [`memory::Allocator`]. A composite record is one such range: a state slot of
//! fixed size followed by the runtime's own object header. Only the header's
//! address is ever handed out; the composite is found again by stepping back
//! over the state slot.

pub mod memory;
pub mod objects;
pub mod lifecycle;
