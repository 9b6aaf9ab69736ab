use vstd::prelude::*;

verus! {

/// The atom indices that a cursor hands out from index `idx` on, when it was
/// bounded by `num_atoms`: each index below the bound, in increasing order.
pub open spec fn indices_from(num_atoms: nat, idx: nat) -> Seq<nat>
    decreases num_atoms - idx,
{
    if idx < num_atoms {
        seq![idx] + indices_from(num_atoms, idx + 1)
    } else {
        seq![]
    }
}

/// A forward-only cursor over the atoms of a borrowed molecule.
///
/// The atom count is taken once, when the cursor is made, and never asked
/// again: a molecule whose atoms are removed while a cursor runs over it may
/// be asked for an index it no longer has. The cursor cannot outlive the
/// molecule it borrows.
pub struct AtomIter<'a, M> {
    ro_mol: &'a M,
    num_atoms: u32,
    idx: u32,
}

impl<'a, M> AtomIter<'a, M> {
    /// The atom count taken when the cursor was made.
    pub closed spec fn bound(&self) -> nat {
        self.num_atoms as nat
    }

    /// The index that the next step hands out, if it is below the bound.
    pub closed spec fn position(&self) -> nat {
        self.idx as nat
    }

    /// The molecule that the cursor borrows.
    pub closed spec fn molecule(&self) -> &'a M {
        self.ro_mol
    }

    /// The indices that the cursor has still to hand out.
    pub open spec fn remaining(&self) -> Seq<nat> {
        indices_from(self.bound(), self.position())
    }

    /// The position never passes the bound.
    pub closed spec fn wf(&self) -> bool {
        self.idx <= self.num_atoms
    }

    /// A fresh cursor over `ro_mol`, bounded by `num_atoms`, the count that the
    /// engine gave for the molecule (with or without implicit hydrogens).
    pub fn new(ro_mol: &'a M, num_atoms: u32) -> (r: Self)
        ensures
            r.wf(),
            r.molecule() == ro_mol,
            r.bound() == num_atoms as nat,
            r.position() == 0,
    {
        AtomIter { ro_mol, num_atoms, idx: 0 }
    }

    /// Steps the cursor: the index of the next atom, or `None` once the bound
    /// is reached.
    pub fn next_index(&mut self) -> (r: Option<u32>)
        requires
            old(self).wf(),
        ensures
            final(self).wf(),
            final(self).molecule() == old(self).molecule(),
            final(self).bound() == old(self).bound(),
            old(self).position() < old(self).bound() ==> r == Some(old(self).position() as u32)
                && final(self).position() == old(self).position() + 1,
            old(self).position() >= old(self).bound() ==> r is None && final(self).position()
                == old(self).position(),
            match r {
                Some(i) => old(self).remaining() == seq![i as nat] + final(self).remaining(),
                None => old(self).remaining().len() == 0 && final(self).remaining().len() == 0,
            },
    {
        if self.idx >= self.num_atoms {
            return None;
        }
        let i = self.idx;
        self.idx = self.idx + 1;
        Some(i)
    }

    /// The molecule that the cursor borrows, from which the atom at a handed
    /// out index is fetched.
    pub fn ro_mol(&self) -> (r: &'a M)
        ensures
            r == self.molecule(),
    {
        self.ro_mol
    }
}

/// A fresh cursor bounded by `n` hands out exactly `n` indices, `0` first and
/// each one more than the one before.
pub proof fn lemma_cursor_yields_each_index_once(n: nat)
    ensures
        indices_from(n, 0).len() == n,
        forall|k: int| 0 <= k < n ==> #[trigger] indices_from(n, 0)[k] == k,
{
    lemma_indices_from(n, 0);
}

proof fn lemma_indices_from(n: nat, i: nat)
    ensures
        i <= n ==> indices_from(n, i).len() == n - i,
        forall|k: int| 0 <= k < n - i ==> #[trigger] indices_from(n, i)[k] == i + k,
    decreases n - i,
{
    if i < n {
        lemma_indices_from(n, i + 1);
        let rest = indices_from(n, i + 1);
        assert forall|k: int| 0 <= k < n - i implies #[trigger] indices_from(n, i)[k] == i + k by {
            if k > 0 {
                assert(indices_from(n, i)[k] == rest[k - 1]);
            }
        }
    }
}

} // verus!
