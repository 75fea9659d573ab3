//! A verified subset of the postcard wire format: varints, zig-zag integers,
//! length-prefixed byte strings, COBS framing with a streaming accumulator,
//! maximum-size bounds, and the property checks that exercise them.
use vstd::prelude::*;

pub mod error;
pub mod varint;
pub mod zigzag;
pub mod ser;
pub mod de;
pub mod roundtrip;
pub mod heapless_vec;
pub mod framing;
pub mod accumulator;
pub mod max_size;
pub mod etna;
