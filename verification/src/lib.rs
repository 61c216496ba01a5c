//! Garbler side of a Free-XOR garbled-circuit construction: a loader for
//! circuit descriptions in Bristol format, a seeded generator of wire labels,
//! and the engine that turns both into garbled truth tables.

pub mod bristol;
pub mod circuit;
pub mod correctness;
pub mod garble;
pub mod label;
pub mod labelgen;
pub mod loader;
pub mod pad;
pub mod roundtrip;
pub mod validate;
pub mod writer;

pub use bristol::ParseError;
pub use circuit::{CircuitInput, GateDef};
pub use garble::{garble_ckt, AndGateTable, GarbledOutput, LabelInputs, NotGateTable, WireLabels};
pub use label::{xor_labels, Label};
pub use labelgen::{gen_labels, gen_labels_from_seed, SEED};
pub use loader::{parse_bristol, read_input};
pub use pad::pad_sha;
pub use validate::{try_garble, validate, GarbleError};
pub use writer::write_bristol;
