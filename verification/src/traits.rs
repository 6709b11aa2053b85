//! Interfaces the server expects its transport and configuration
//! collaborators to implement. The embedding program implements them for
//! its socket type; no contract is assumed of those implementations.

use vstd::prelude::*;

verus! {

/// Relies on std::io::Error existing as a type; the library never looks
/// inside a value of it.
#[verifier::external_type_specification]
#[verifier::external_body]
pub struct ExIoError(std::io::Error);

/// A transport that can be shut down for good.
pub trait Close {
    fn close(&mut self) -> Result<(), std::io::Error>;
}

/// A transport handle that can be duplicated, fallibly.
pub trait TryClone: Sized {
    fn try_clone(&self) -> Result<Self, std::io::Error>;
}

/// A transport whose reads can be bounded: `alert` arms a read deadline,
/// `sleep` disarms it and makes reads non-blocking.
pub trait Interrupt {
    fn alert(&mut self, when: core::time::Duration) -> Result<(), std::io::Error>;

    fn sleep(&mut self) -> Result<(), std::io::Error>;
}

/// The read-only configuration surface the server core consumes; it must
/// be safely shareable across threads.
pub trait Config: Send + Sync + Clone + 'static {
    fn port(&self) -> u16;

    fn host(&self) -> &str;

    fn initial_coins_count(&self) -> u32;
}

} // verus!
