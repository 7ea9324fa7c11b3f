//! Safe object model for an inter-process-communication transport.
//!
//! The crate wraps a reference-counted native messaging substrate behind three
//! abstractions: remote-object handles with strong-reference lifecycle
//! management, message buffers (parcels) with a typed, positional
//! serialization protocol, and death-notification recipients whose callback
//! storage is released exactly once.
//!
//! The native substrate itself is out of scope; it is represented here by the
//! [`transport::Transport`] state model, which exposes the substrate's
//! documented primitive interface (reference counts, buffer slots, dispatch,
//! recipient registration) as verified state transitions.  Every handle
//! operation states exactly how it changes that state.

use vstd::prelude::*;

pub mod parcel;
pub mod remote_obj;
pub mod string16;
pub mod transport;

verus! {

} // verus!
