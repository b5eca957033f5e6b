# gsm_cap

A **CAMEL Application Part (CAP)** operation codec, 3GPP TS 29.078: BER
encode/decode of the gsmSSF / gsmSCF operations that drive CAMEL Intelligent
Network services (prepaid call control, service triggering, charging and
CAMEL-for-SMS), with its behaviour stated in Verus contracts and proved.

```rust
use gsm_cap::operations::ReleaseCallArg;

let rel = ReleaseCallArg { cause: vec![0x90, 0x03] };
let ber = gsm_cap::encode(&rel).unwrap();          // 30 04 04 02 90 03
let back: ReleaseCallArg = gsm_cap::decode(&ber).unwrap();
assert_eq!(rel, back);
```

## Layout

- `src/ber/`: the Basic Encoding Rules for the ASN.1 shapes CAP uses.
  - `model.rs`: ASN.1 types (schemas) and abstract values.
  - `octets.rs`, `spec.rs`: what the encoding of a value is, and how a string
    of octets is read back as a value.
  - `encoder.rs`, `decoder.rs`: the executable codec, proved to compute
    exactly those two functions.
  - `roundtrip.rs`: decoding an encoding gives the value back; `prefix.rs`:
    what follows a value is never read.
  - `fuel.rs`, `parts.rs`: depth bounds, and the pieces the CAP types are
    described with.
- `src/codec.rs`: the `BerCodec` trait of the CAP types, the generic
  `encode` / `decode`, and the laws that hold of every CAP type.
- `src/types.rs`, `src/operations.rs`: the CAP argument and result types.
- `src/op_codes.rs`: the operation codes and `operation_name`.
- `src/application_context.rs`: the application-context OIDs.
- `src/python.rs`: the values behind the Python bindings, and their
  conversions to and from the CAP types.
- `app/`: the PyO3 module (`_gsm_cap`, `register`).

## What the decoder reads

Definite lengths (short and long form, with leading zero length octets
allowed) everywhere, and the indefinite length for SEQUENCE, SEQUENCE OF and
constructed OCTET STRING; OCTET STRINGs in one primitive piece or segmented,
their segments segmented in turn up to 100 levels deep; tag numbers in the
high-tag form up to 2^32 - 1; any non-zero BOOLEAN octet as TRUE. INTEGERs
(service keys, invoke ids) are of any size, and ENUMERATED values may carry
redundant sign octets. What follows the first value in the input is ignored.

Input that is not read as a value of the expected type gives
`CapError::Decode` with one fixed message (`codec::DECODE_FAILURE`); the
message does not say where or how the input went wrong.
`CapError::message` gives the full text of any error, as Python shows it.
