//! BLS signatures over BLS12-377: the compressed encoding of signatures,
//! the pairing inputs of batch verification, and the y-bit gadget that
//! recomputes the compression sign inside a constraint system.
//!
//! - `field`: base-field elements as canonical little-endian bytes, with
//!   the order, negation and the sign threshold `(p - 1) / 2`.
//! - `signature`: encoding and decoding of signatures, hash collection and
//!   the point pairs of the batch equation.
//! - `y_to_bit`: the gadget's witness and its constraints, with proofs that
//!   they fix the sign bit.

pub mod field;
pub mod y_to_bit;
pub mod signature;
