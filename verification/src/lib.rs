//! Payment command gateway.
//!
//! The gateway accepts untrusted payment requests, normalizes and validates
//! them into a canonical internal command, hands that command to an
//! asynchronous command processor, and projects the processor's eventual
//! reply (or a transport failure) back into a wire-shaped response with a
//! stable error taxonomy.
//!
//! The crate is organised leaf-first:
//! - [`codec`]: the reversible `0x`-prefixed hexadecimal text codec used for
//!   every numeric and binary wire field;
//! - [`records`]: the keyed custom-record extension container carried inside
//!   requests and responses;
//! - [`types`]: the data model shared by requests, commands and responses;
//! - [`gateway`]: the request normalizer, the call-outcome resolution of the
//!   actor bridge, and the response projector.
//!
//! The routing subsystem itself is an external collaborator: the gateway only
//! prepares commands for it and interprets its replies. The asynchronous
//! dispatch loop (send the command, await exactly one reply or a deadline)
//! lives outside this crate; everything that decides or computes is here,
//! verified.

pub mod codec;
pub mod gateway;
pub mod records;
pub mod types;
