//! Flat byte-buffer snapshots of the cell grid: 4 bytes per cell in channel
//! order hue, saturation, luminance, alpha.

use vstd::prelude::*;
use vstd::arithmetic::div_mod::lemma_fundamental_div_mod_converse;
use crate::cell::Individual;
use crate::universe::Universe;

verus! {

/// Byte `j` of a snapshot: channel `j % 4` of cell `j / 4`.
pub open spec fn spec_state_byte(cells: Seq<Individual>, j: int) -> u8 {
    let c = cells[j / 4];
    if j % 4 == 0 {
        c.hue
    } else if j % 4 == 1 {
        c.saturation
    } else if j % 4 == 2 {
        c.luminance
    } else {
        c.alpha
    }
}

/// The snapshot of a cell buffer: 4 bytes per cell.
pub open spec fn spec_state_bytes(cells: Seq<Individual>) -> Seq<u8> {
    Seq::new((4 * cells.len()) as nat, |j: int| spec_state_byte(cells, j))
}

/// Cell `i` as read back from a snapshot.
pub open spec fn spec_cell_from_bytes(bytes: Seq<u8>, i: int) -> Individual {
    Individual {
        hue: bytes[4 * i],
        saturation: bytes[4 * i + 1],
        luminance: bytes[4 * i + 2],
        alpha: bytes[4 * i + 3],
    }
}

/// Reading a snapshot back yields exactly the cells it was taken from.
pub proof fn lemma_state_roundtrip(cells: Seq<Individual>)
    ensures
        spec_state_bytes(cells).len() == 4 * cells.len(),
        forall|i: int|
            0 <= i < cells.len() ==> #[trigger] spec_cell_from_bytes(spec_state_bytes(cells), i)
                == cells[i],
{
    assert forall|i: int|
        0 <= i < cells.len() implies #[trigger] spec_cell_from_bytes(spec_state_bytes(cells), i)
        == cells[i] by {
        lemma_fundamental_div_mod_converse(4 * i, 4, i, 0);
        lemma_fundamental_div_mod_converse(4 * i + 1, 4, i, 1);
        lemma_fundamental_div_mod_converse(4 * i + 2, 4, i, 2);
        lemma_fundamental_div_mod_converse(4 * i + 3, 4, i, 3);
    }
}

impl Universe {
    /// An exact byte copy of the live cell buffer, 4 bytes per cell in
    /// channel order hue, saturation, luminance, alpha.
    pub fn save_state(&self) -> (r: Vec<u8>)
        ensures
            r@ == spec_state_bytes(self.cells@),
            r@.len() == 4 * self.cells@.len(),
    {
        let n: usize = self.cells.len();
        let mut bytes: Vec<u8> = Vec::new();
        let mut i: usize = 0;
        while i < n
            invariant
                i <= n,
                n == self.cells@.len(),
                bytes@.len() == 4 * i,
                forall|j: int| 0 <= j < 4 * i ==> bytes@[j] == spec_state_byte(self.cells@, j),
            decreases n - i,
        {
            let c = self.cells[i];
            bytes.push(c.hue);
            bytes.push(c.saturation);
            bytes.push(c.luminance);
            bytes.push(c.alpha);
            proof {
                lemma_fundamental_div_mod_converse(4 * i as int, 4, i as int, 0);
                lemma_fundamental_div_mod_converse(4 * i as int + 1, 4, i as int, 1);
                lemma_fundamental_div_mod_converse(4 * i as int + 2, 4, i as int, 2);
                lemma_fundamental_div_mod_converse(4 * i as int + 3, 4, i as int, 3);
            }
            i = i + 1;
        }
        proof {
            assert(bytes@ =~= spec_state_bytes(self.cells@));
        }
        bytes
    }

    /// Replaces the cell buffer with the given snapshot. Fails, changing
    /// nothing, exactly when the byte length does not match the current
    /// buffer length.
    pub fn load_state(&mut self, data: &Vec<u8>) -> (r: bool)
        ensures
            r == (data@.len() == 4 * old(self).cells@.len()),
            !r ==> *final(self) == *old(self),
            r ==> *final(self) == (Universe { cells: final(self).cells, ..*old(self) }),
            r ==> final(self).cells@.len() == old(self).cells@.len(),
            r ==> forall|i: int|
                0 <= i < final(self).cells@.len() ==> final(self).cells@[i]
                    == spec_cell_from_bytes(data@, i),
    {
        let n: usize = self.cells.len();
        if data.len() % 4 != 0 || data.len() / 4 != n {
            return false;
        }
        let mut i: usize = 0;
        while i < n
            invariant
                i <= n,
                n == old(self).cells@.len(),
                data@.len() == 4 * n,
                data@.len() <= usize::MAX,
                *self == (Universe { cells: self.cells, ..*old(self) }),
                self.cells@.len() == n,
                forall|j: int| 0 <= j < i ==> self.cells@[j] == spec_cell_from_bytes(data@, j),
                forall|j: int| i <= j < n ==> self.cells@[j] == old(self).cells@[j],
            decreases n - i,
        {
            self.cells[i] = Individual {
                hue: data[4 * i],
                saturation: data[4 * i + 1],
                luminance: data[4 * i + 2],
                alpha: data[4 * i + 3],
            };
            i = i + 1;
        }
        true
    }
}

} // verus!
