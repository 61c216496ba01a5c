//! The label generator: draws the global offset and the zero-labels of a
//! garbling run from a ChaCha12 generator with a given seed.

use vstd::prelude::*;
use rand::{RngCore, SeedableRng};
use rand_chacha::ChaCha12Rng;
use crate::garble::{labels_view, LabelInputs, Labels};
use crate::label::Label;

verus! {

/// The seed of the reference configuration: all zero. Labels drawn from it
/// are predictable; it serves reproducible runs, not secrecy.
pub const SEED: [u8; 32] = [
    0, 0, 0, 0, 0, 0, 0, 0, 0, 0, 0, 0, 0, 0, 0, 0, 0, 0, 0, 0, 0, 0, 0, 0, 0, 0, 0, 0, 0, 0, 0, 0,
];

/// The generator of `rand_chacha` with twelve rounds. Nothing inside it is
/// visible to the proofs; [`rng_seed`] and [`rng_offset`] name its state.
#[verifier::external_type_specification]
#[verifier::external_body]
pub struct ExChaCha12Rng(rand_chacha::ChaCha12Rng);

/// The `len` bytes that a ChaCha12 generator seeded with `seed` yields after
/// it has yielded `from` bytes, drawn in whole 32-bit words.
pub uninterp spec fn keystream(seed: Seq<u8>, from: nat, len: nat) -> Seq<u8>;

/// The seed that a generator was made from.
pub uninterp spec fn rng_seed(rng: ChaCha12Rng) -> Seq<u8>;

/// The number of bytes that a generator has yielded so far.
pub uninterp spec fn rng_offset(rng: ChaCha12Rng) -> nat;

/// Calls `ChaCha12Rng::from_seed`. Trusted: the generator starts at the
/// beginning of the stream of `seed`.
#[verifier::external_body]
fn seeded_rng(seed: [u8; 32]) -> (rng: ChaCha12Rng)
    ensures
        rng_seed(rng) == seed@,
        rng_offset(rng) == 0,
{
    ChaCha12Rng::from_seed(seed)
}

/// Calls `fill_bytes` of the generator on a buffer of 16 bytes. Trusted: the
/// buffer receives the next 16 bytes of the generator's stream, and the
/// generator moves on by as many.
#[verifier::external_body]
fn draw_label(rng: &mut ChaCha12Rng) -> (label: Label)
    ensures
        label@ == keystream(rng_seed(*old(rng)), rng_offset(*old(rng)), 16),
        rng_seed(*final(rng)) == rng_seed(*old(rng)),
        rng_offset(*final(rng)) == rng_offset(*old(rng)) + 16,
{
    let mut label = [0u8; 16];
    rng.fill_bytes(&mut label);
    label
}

/// The `count` labels that follow byte `from` of the stream of `seed`.
pub open spec fn drawn(seed: Seq<u8>, from: nat, count: nat) -> Seq<Seq<u8>> {
    Seq::new(count, |i: int| keystream(seed, (from + 16 * i) as nat, 16))
}

/// The labels of a run with `n` input wires and `m` inner wires under
/// `seed`, in draw order: the offset first, then the input labels in input
/// order, then the inner labels in gate-processing order.
pub open spec fn labels_spec(seed: Seq<u8>, n: nat, m: nat) -> Labels {
    Labels {
        delta: keystream(seed, 0, 16),
        input_labels: drawn(seed, 16, n),
        inner_labels: drawn(seed, 16 + 16 * n, m),
    }
}

/// Draws `count` labels from `rng`, one after the other.
fn draw_labels(rng: &mut ChaCha12Rng, count: usize) -> (labels: Vec<Label>)
    ensures
        rng_seed(*final(rng)) == rng_seed(*old(rng)),
        rng_offset(*final(rng)) == rng_offset(*old(rng)) + 16 * count,
        labels.len() == count,
        labels_view(labels@) == drawn(rng_seed(*old(rng)), rng_offset(*old(rng)), count as nat),
{
    let ghost seed = rng_seed(*rng);
    let ghost from = rng_offset(*rng);
    let mut labels: Vec<Label> = Vec::new();
    let mut i: usize = 0;
    while i < count
        invariant
            i <= count,
            labels.len() == i,
            rng_seed(*rng) == seed,
            rng_offset(*rng) == from + 16 * i,
            forall|j: int|
                0 <= j < i ==> (#[trigger] labels@[j])@ == keystream(
                    seed,
                    (from + 16 * j) as nat,
                    16,
                ),
        decreases count - i,
    {
        let label = draw_label(rng);
        labels.push(label);
        i += 1;
    }
    assert(labels_view(labels@) =~= drawn(seed, from, count as nat));
    labels
}

/// Generates the labels of a run from `seed`: one offset, then
/// `input_wire_count` input labels, then `inner_wire_count` inner labels,
/// each the next 128 bits of the generator. The same seed gives the same
/// labels.
pub fn gen_labels_from_seed(seed: [u8; 32], input_wire_count: usize, inner_wire_count: usize) -> (out:
    LabelInputs)
    ensures
        out@ == labels_spec(seed@, input_wire_count as nat, inner_wire_count as nat),
        out.input_labels.len() == input_wire_count,
        out.inner_labels.len() == inner_wire_count,
        out@.well_formed(),
{
    let mut rng = seeded_rng(seed);
    let delta = draw_label(&mut rng);
    let input_labels = draw_labels(&mut rng, input_wire_count);
    let inner_labels = draw_labels(&mut rng, inner_wire_count);
    LabelInputs { delta, input_labels, inner_labels }
}

/// Generates the labels of a run from the all-zero [`SEED`].
pub fn gen_labels(input_wire_count: usize, inner_wire_count: usize) -> (out: LabelInputs)
    ensures
        out@ == labels_spec(SEED@, input_wire_count as nat, inner_wire_count as nat),
        out.input_labels.len() == input_wire_count,
        out.inner_labels.len() == inner_wire_count,
        out@.well_formed(),
{
    gen_labels_from_seed(SEED, input_wire_count, inner_wire_count)
}

} // verus!
