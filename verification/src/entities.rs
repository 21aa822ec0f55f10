//! The columns of a prover's witness, grouped into those that are shared
//! among the parties and those that are public.

use vstd::prelude::*;

verus! {

/// The number of shared columns that a proving key holds.
pub const PROVER_PRIVATE_WITNESS_ENTITIES_SIZE: usize = 4;

/// The number of public columns that a proving key holds.
pub const PROVER_PUBLIC_WITNESS_ENTITIES_SIZE: usize = 2;

/// The number of shared columns of a witness.
pub const PRIVATE_WITNESS_ENTITIES_SIZE: usize = 6;

/// The number of public columns of a witness.
pub const PUBLIC_WITNESS_ENTITIES_SIZE: usize = 2;

/// Index of the left wire among the shared columns.
pub const W_L: usize = 0;

/// Index of the right wire among the shared columns.
pub const W_R: usize = 1;

/// Index of the output wire among the shared columns.
pub const W_O: usize = 2;

/// Index of the fourth wire among the shared columns.
pub const W_4: usize = 3;

/// Index of the permutation column among the shared columns.
pub const Z_PERM: usize = 4;

/// Index of the column of lookup inverses among the shared columns.
pub const LOOKUP_INVERSES: usize = 5;

/// Index of the lookup read counts among the public columns.
pub const LOOKUP_READ_COUNTS: usize = 0;

/// Index of the lookup read tags among the public columns.
pub const LOOKUP_READ_TAGS: usize = 1;

/// The witness columns that a proving key holds: the four wires, and the
/// lookup read counts and tags.
#[derive(Debug, Default)]
pub struct ProverWitnessEntities<Shared, Public> {
    pub private_elements: [Shared; 4],
    pub public_elements: [Public; 2],
}

impl<Shared, Public> ProverWitnessEntities<Shared, Public> {
    /// The four wires, in their order.
    pub fn into_wires(self) -> (r: [Shared; 4])
        ensures
            r@ == self.private_elements@,
    {
        self.private_elements
    }

    /// The four wires, in their order, to be changed in place.
    pub fn get_wires_mut(&mut self) -> (r: &mut [Shared])
        ensures
            r@ == old(self).private_elements@,
            final(self).private_elements@ == final(r)@,
            final(self).public_elements == old(self).public_elements,
    {
        &mut self.private_elements
    }

    /// The left wire.
    pub fn w_l(&self) -> (r: &Shared)
        ensures
            *r == self.private_elements[W_L as int],
    {
        &self.private_elements[W_L]
    }

    /// The right wire.
    pub fn w_r(&self) -> (r: &Shared)
        ensures
            *r == self.private_elements[W_R as int],
    {
        &self.private_elements[W_R]
    }

    /// The output wire.
    pub fn w_o(&self) -> (r: &Shared)
        ensures
            *r == self.private_elements[W_O as int],
    {
        &self.private_elements[W_O]
    }

    /// The fourth wire.
    pub fn w_4(&self) -> (r: &Shared)
        ensures
            *r == self.private_elements[W_4 as int],
    {
        &self.private_elements[W_4]
    }

    /// The lookup read counts.
    pub fn lookup_read_counts(&self) -> (r: &Public)
        ensures
            *r == self.public_elements[LOOKUP_READ_COUNTS as int],
    {
        &self.public_elements[LOOKUP_READ_COUNTS]
    }

    /// The lookup read tags.
    pub fn lookup_read_tags(&self) -> (r: &Public)
        ensures
            *r == self.public_elements[LOOKUP_READ_TAGS as int],
    {
        &self.public_elements[LOOKUP_READ_TAGS]
    }

    /// The lookup read counts and tags, in this order, to be changed in
    /// place.
    pub fn lookup_read_counts_and_tags_mut(&mut self) -> (r: &mut [Public])
        ensures
            r@ == old(self).public_elements@,
            final(self).public_elements@ == final(r)@,
            final(self).private_elements == old(self).private_elements,
    {
        &mut self.public_elements
    }
}

/// The witness columns of a proof: the four wires, the permutation column
/// and the lookup inverses, which are shared, and the lookup read counts
/// and tags, which are public.
#[derive(Debug, Default)]
pub struct WitnessEntities<Shared, Public> {
    pub private_elements: [Shared; 6],
    pub public_elements: [Public; 2],
}

impl<Shared, Public> WitnessEntities<Shared, Public> {
    /// The shared columns, in their order.
    pub fn shared_iter(&self) -> (r: &[Shared])
        ensures
            r@ == self.private_elements@,
    {
        self.private_elements.as_slice()
    }

    /// The public columns, in their order.
    pub fn public_iter(&self) -> (r: &[Public])
        ensures
            r@ == self.public_elements@,
    {
        self.public_elements.as_slice()
    }

    /// The shared columns, in their order.
    pub fn into_shared_iter(self) -> (r: [Shared; 6])
        ensures
            r@ == self.private_elements@,
    {
        self.private_elements
    }

    /// The shared columns, in their order, to be changed in place.
    pub fn shared_iter_mut(&mut self) -> (r: &mut [Shared])
        ensures
            r@ == old(self).private_elements@,
            final(self).private_elements@ == final(r)@,
            final(self).public_elements == old(self).public_elements,
    {
        &mut self.private_elements
    }

    /// The public columns, in their order, to be changed in place.
    pub fn public_iter_mut(&mut self) -> (r: &mut [Public])
        ensures
            r@ == old(self).public_elements@,
            final(self).public_elements@ == final(r)@,
            final(self).private_elements == old(self).private_elements,
    {
        &mut self.public_elements
    }

    /// The columns that are shifted, to be changed in place: the four
    /// wires and the permutation column. The lookup inverses stay as they
    /// are.
    pub fn to_be_shifted_mut(&mut self) -> (r: &mut [Shared])
        ensures
            r@ == old(self).private_elements@.subrange(0, Z_PERM + 1),
            final(r)@.len() == Z_PERM + 1 ==> final(self).private_elements@ == final(r)@
                + old(self).private_elements@.subrange(Z_PERM + 1, 6),
            final(self).public_elements == old(self).public_elements,
    {
        let all: &mut [Shared] = &mut self.private_elements;
        let (shifted, _rest) = all.split_at_mut(Z_PERM + 1);
        shifted
    }

    /// The left wire.
    pub fn w_l(&self) -> (r: &Shared)
        ensures
            *r == self.private_elements[W_L as int],
    {
        &self.private_elements[W_L]
    }

    /// The right wire.
    pub fn w_r(&self) -> (r: &Shared)
        ensures
            *r == self.private_elements[W_R as int],
    {
        &self.private_elements[W_R]
    }

    /// The output wire.
    pub fn w_o(&self) -> (r: &Shared)
        ensures
            *r == self.private_elements[W_O as int],
    {
        &self.private_elements[W_O]
    }

    /// The fourth wire.
    pub fn w_4(&self) -> (r: &Shared)
        ensures
            *r == self.private_elements[W_4 as int],
    {
        &self.private_elements[W_4]
    }

    /// The permutation column.
    pub fn z_perm(&self) -> (r: &Shared)
        ensures
            *r == self.private_elements[Z_PERM as int],
    {
        &self.private_elements[Z_PERM]
    }

    /// The lookup inverses.
    pub fn lookup_inverses(&self) -> (r: &Shared)
        ensures
            *r == self.private_elements[LOOKUP_INVERSES as int],
    {
        &self.private_elements[LOOKUP_INVERSES]
    }

    /// The lookup read counts.
    pub fn lookup_read_counts(&self) -> (r: &Public)
        ensures
            *r == self.public_elements[LOOKUP_READ_COUNTS as int],
    {
        &self.public_elements[LOOKUP_READ_COUNTS]
    }

    /// The lookup read tags.
    pub fn lookup_read_tags(&self) -> (r: &Public)
        ensures
            *r == self.public_elements[LOOKUP_READ_TAGS as int],
    {
        &self.public_elements[LOOKUP_READ_TAGS]
    }

    /// The lookup inverses, to be changed in place.
    pub fn lookup_inverses_mut(&mut self) -> (r: &mut Shared)
        ensures
            *r == old(self).private_elements[LOOKUP_INVERSES as int],
            final(self).private_elements@ == old(self).private_elements@.update(
                LOOKUP_INVERSES as int,
                *final(r),
            ),
            final(self).public_elements == old(self).public_elements,
    {
        &mut self.private_elements[LOOKUP_INVERSES]
    }

    /// The lookup read counts, to be changed in place.
    pub fn lookup_read_counts_mut(&mut self) -> (r: &mut Public)
        ensures
            *r == old(self).public_elements[LOOKUP_READ_COUNTS as int],
            final(self).public_elements@ == old(self).public_elements@.update(
                LOOKUP_READ_COUNTS as int,
                *final(r),
            ),
            final(self).private_elements == old(self).private_elements,
    {
        &mut self.public_elements[LOOKUP_READ_COUNTS]
    }

    /// The lookup read tags, to be changed in place.
    pub fn lookup_read_tags_mut(&mut self) -> (r: &mut Public)
        ensures
            *r == old(self).public_elements[LOOKUP_READ_TAGS as int],
            final(self).public_elements@ == old(self).public_elements@.update(
                LOOKUP_READ_TAGS as int,
                *final(r),
            ),
            final(self).private_elements == old(self).private_elements,
    {
        &mut self.public_elements[LOOKUP_READ_TAGS]
    }
}

} // verus!
