//! Basic Encoding Rules (X.690) for the ASN.1 shapes that CAP uses.

pub mod decoder;
pub mod encoder;
pub mod fuel;
pub mod integer;
pub mod model;
pub mod octets;
pub mod parts;
pub mod prefix;
pub mod roundtrip;
pub mod spec;
