//! Host-side engine for small, untrusted "renderer" guest modules.
//!
//! The library loads a guest module, validates a strict ABI contract against
//! the parameter schema the guest declares, marshals per-frame argument
//! lists, drives the guest's render callback one step at a time, and
//! captures the text the guest hands back through the single `render`
//! import.  A misbehaving guest can at worst freeze its own output: a trap
//! fails the session stickily, never the host.
//!
//! - [`schema`]: the parameter descriptors and their value kinds;
//! - [`codec`]: their JSON text, decoding specified exactly and encoding
//!   proved to decode back;
//! - [`session`]: the loader/validator, the argument marshaler and the frame
//!   driver;
//! - [`text`]: null-terminated-string capture from guest memory;
//! - [`errors`]: the categorized load errors with exact message texts;
//! - [`engine`]: the trusted boundary around the execution engine and the
//!   clock.

use vstd::prelude::*;

pub mod codec;
pub mod engine;
pub mod errors;
pub mod schema;
pub mod session;
pub mod text;

verus! {

} // verus!
