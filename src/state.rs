use vstd::prelude::*;

use crate::tables::{rsbox, sbox, spec_rsbox, spec_sbox};

verus! {

/// One column of the state: four bytes.
#[allow(non_camel_case_types)]
pub type u8x4 = [u8; 4];

/// The 4x4 byte state, stored as four columns.
pub type State = [u8x4; 4];

/// The 16 bytes of a state in block order: byte `i` of a block sits in
/// column `i / 4`, row `i % 4`.
pub open spec fn flat(s: State) -> Seq<u8> {
    Seq::new(16, |i: int| s[i / 4][i % 4])
}

/// Lays out a 16-byte block as a state.
pub fn create_state(input: &[u8]) -> (r: State)
    requires
        input@.len() == 16,
    ensures
        flat(r) == input@,
{
    let mut state: State = [[0u8; 4]; 4];
    let mut i: usize = 0;
    while i < 16
        invariant
            0 <= i <= 16,
            input@.len() == 16,
            forall|k: int| 0 <= k < i ==> #[trigger] state[k / 4][k % 4] == input@[k],
        decreases 16 - i,
    {
        let mut col = state[i / 4];
        col[i % 4] = input[i];
        state[i / 4] = col;
        i += 1;
    }
    assert(flat(state) =~= input@);
    state
}

/// Bytewise operations shared by a column and a whole state.
pub trait Ops: Sized {
    /// Rotates left; on a state, row `r` of every column moves by `r`.
    fn lrot(&self) -> Self;

    /// Rotates right; the inverse of `lrot`.
    fn rrot(&self) -> Self;

    /// Bytewise exclusive or.
    fn xor(&self, rhs: &Self) -> Self;

    /// Substitutes every byte through the substitution box.
    fn sub_sbox(&self) -> Self;

    /// Substitutes every byte through the inverse substitution box.
    fn sub_rsbox(&self) -> Self;
}

impl Ops for u8x4 {
    fn lrot(&self) -> (r: u8x4)
        ensures
            forall|j: int| 0 <= j < 4 ==> #[trigger] r[j] == self[(j + 1) % 4],
    {
        [self[1], self[2], self[3], self[0]]
    }

    fn rrot(&self) -> (r: u8x4)
        ensures
            forall|j: int| 0 <= j < 4 ==> #[trigger] r[j] == self[(j + 3) % 4],
    {
        [self[3], self[0], self[1], self[2]]
    }

    fn xor(&self, rhs: &u8x4) -> (r: u8x4)
        ensures
            forall|j: int| 0 <= j < 4 ==> #[trigger] r[j] == self[j] ^ rhs[j],
    {
        [self[0] ^ rhs[0], self[1] ^ rhs[1], self[2] ^ rhs[2], self[3] ^ rhs[3]]
    }

    fn sub_sbox(&self) -> (r: u8x4)
        ensures
            forall|j: int| 0 <= j < 4 ==> #[trigger] r[j] == spec_sbox(self[j]),
    {
        [sbox(self[0]), sbox(self[1]), sbox(self[2]), sbox(self[3])]
    }

    fn sub_rsbox(&self) -> (r: u8x4)
        ensures
            forall|j: int| 0 <= j < 4 ==> #[trigger] r[j] == spec_rsbox(self[j]),
    {
        [rsbox(self[0]), rsbox(self[1]), rsbox(self[2]), rsbox(self[3])]
    }
}

impl Ops for State {
    fn lrot(&self) -> (r: State)
        ensures
            forall|i: int, j: int|
                0 <= i < 4 && 0 <= j < 4 ==> #[trigger] r[i][j] == self[i][(j + i) % 4],
    {
        [self[0], self[1].lrot(), self[2].lrot().lrot(), self[3].lrot().lrot().lrot()]
    }

    fn rrot(&self) -> (r: State)
        ensures
            forall|i: int, j: int|
                0 <= i < 4 && 0 <= j < 4 ==> #[trigger] r[i][j] == self[i][(j + 4 - i) % 4],
    {
        [self[0], self[1].rrot(), self[2].rrot().rrot(), self[3].rrot().rrot().rrot()]
    }

    fn xor(&self, rhs: &State) -> (r: State)
        ensures
            forall|i: int, j: int|
                0 <= i < 4 && 0 <= j < 4 ==> #[trigger] r[i][j] == self[i][j] ^ rhs[i][j],
    {
        [self[0].xor(&rhs[0]), self[1].xor(&rhs[1]), self[2].xor(&rhs[2]), self[3].xor(&rhs[3])]
    }

    fn sub_sbox(&self) -> (r: State)
        ensures
            forall|i: int, j: int|
                0 <= i < 4 && 0 <= j < 4 ==> #[trigger] r[i][j] == spec_sbox(self[i][j]),
    {
        [self[0].sub_sbox(), self[1].sub_sbox(), self[2].sub_sbox(), self[3].sub_sbox()]
    }

    fn sub_rsbox(&self) -> (r: State)
        ensures
            forall|i: int, j: int|
                0 <= i < 4 && 0 <= j < 4 ==> #[trigger] r[i][j] == spec_rsbox(self[i][j]),
    {
        [self[0].sub_rsbox(), self[1].sub_rsbox(), self[2].sub_rsbox(), self[3].sub_rsbox()]
    }
}

} // verus!
