//! # gsm_cap
//!
//! **CAMEL Application Part (CAP)** operation codec, 3GPP TS 29.078: BER
//! encode/decode of the gsmSSF / gsmSCF operations that drive CAMEL Intelligent
//! Network services (prepaid call control, service triggering, charging and
//! CAMEL-for-SMS).
//!
//! CAP rides on TCAP over SCCP; this crate is the operation layer: the
//! argument and result types ([`operations`], [`types`]), their BER codec
//! ([`encode`], [`decode`]) and the [operation codes](op_codes). A consumer
//! wraps a CAP argument in a TCAP Invoke with the matching operation code; the
//! surrounding dialogue (application context, transaction ids) is the TCAP
//! layer's job, with the [`application_context`] OIDs naming the dialogue.
//!
//! The codec is specified in [`ber::spec`] and [`codec`]: `encode` returns the
//! encoding of its argument, `decode` returns the value its input starts with
//! or a decode error exactly when there is none, and decoding an encoding gives
//! the value back.

pub mod application_context;
pub mod ber;
pub mod codec;
pub mod error;
pub mod op_codes;
pub mod operations;
pub mod python;
pub mod text;
pub mod types;

pub use codec::{decode, encode};
pub use error::CapError;
pub use op_codes::operation_name;
