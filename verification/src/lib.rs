//! Attachment driver for the RP1 I/O controller, as a verified core.
//!
//! The crate holds everything the driver decides: which bus resource it
//! claims, how register offsets are bounded by the mapped window, how the chip
//! is recognised, which alias register a pin write goes to, and the order in
//! which resources are acquired and given back. Touching real hardware is left
//! to the embedding code, which performs the actions that the lifecycle state
//! machine asks for and reports back what happened. A loopback register bank
//! stands in for the hardware wherever the behaviour of the whole is stated.

pub mod error;
pub mod regmap;
pub mod claim;
pub mod window;
pub mod identity;
pub mod pin;
pub mod lifecycle;
pub mod session;
