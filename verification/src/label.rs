//! Wire labels: fixed 128-bit secrets, combined byte by byte with XOR.

use vstd::prelude::*;

verus! {

/// Fixed-width 128-bit label.
pub type Label = [u8; 16];

/// Whether `s` has the width of a label.
pub open spec fn is_label(s: Seq<u8>) -> bool {
    s.len() == 16
}

/// Byte-wise XOR of two labels.
pub open spec fn xor_spec(a: Seq<u8>, b: Seq<u8>) -> Seq<u8> {
    Seq::new(16, |i: int| a[i] ^ b[i])
}

/// XOR of two 128-bit labels.
pub fn xor_labels(a: &Label, b: &Label) -> (r: Label)
    ensures
        r@ == xor_spec(a@, b@),
{
    let mut r: Label = [0u8; 16];
    let mut i: usize = 0;
    while i < 16
        invariant
            i <= 16,
            forall|j: int| 0 <= j < i ==> r@[j] == a@[j] ^ b@[j],
        decreases 16 - i,
    {
        r[i] = a[i] ^ b[i];
        i += 1;
    }
    assert(r@ =~= xor_spec(a@, b@));
    r
}

/// XOR-ing with the same label twice gives the first label back.
pub proof fn lemma_xor_cancel(a: Seq<u8>, b: Seq<u8>)
    requires
        is_label(a),
    ensures
        xor_spec(xor_spec(a, b), b) == a,
        xor_spec(b, xor_spec(b, a)) == a,
{
    assert forall|i: int| 0 <= i < 16 implies #[trigger] xor_spec(xor_spec(a, b), b)[i] == a[i] by {
        let x = a[i];
        let y = b[i];
        assert((x ^ y) ^ y == x) by (bit_vector);
    }
    assert(xor_spec(xor_spec(a, b), b) =~= a);
    assert forall|i: int| 0 <= i < 16 implies #[trigger] xor_spec(b, xor_spec(b, a))[i] == a[i] by {
        let x = a[i];
        let y = b[i];
        assert(y ^ (y ^ x) == x) by (bit_vector);
    }
    assert(xor_spec(b, xor_spec(b, a)) =~= a);
}

} // verus!
