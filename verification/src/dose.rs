//! Layout of a dose pass: the grid is cut into slices of constant `x`, one
//! per worker. A worker fills a private buffer for its slice, and a single
//! owner merges the buffers into the dose grid.

use vstd::prelude::*;
use crate::beam_utils::{lemma_extents_in_grid, lemma_index_in_grid, to_index, PatientBox};

verus! {

/// Position of voxel `(x, y, z)` in the buffer of slice `x`: `y` runs
/// outermost, `z` innermost.
pub open spec fn slice_slot(patient: PatientBox, y: int, z: int) -> int {
    y * patient.z_size + z
}

/// Number of voxels in one slice.
pub open spec fn slice_len(patient: PatientBox) -> int {
    patient.y_size * patient.z_size
}

/// The dose-grid index of every voxel of slice `x`, in buffer order: where
/// each entry of a worker's buffer is merged into the grid.
pub fn slice_indices(patient: &PatientBox, x: i64) -> (indices: Vec<usize>)
    requires
        patient.addressable(),
        0 <= x < patient.x_size,
    ensures
        indices.len() == slice_len(*patient),
        forall|slot: int| 0 <= slot < indices.len() ==> #[trigger] indices[slot] < patient.volume(),
        forall|y: int, z: int|
            0 <= y < patient.y_size && 0 <= z < patient.z_size ==> {
                &&& 0 <= slice_slot(*patient, y, z) < indices.len()
                &&& indices[#[trigger] slice_slot(*patient, y, z)] == patient.index_of(
                    x as int,
                    y,
                    z,
                )
            },
{
    let xs: i64 = patient.x_size;
    let ys: i64 = patient.y_size;
    let zs: i64 = patient.z_size;
    let mut indices: Vec<usize> = Vec::new();
    let mut y: i64 = 0;
    assert(slice_slot(*patient, 0, 0) == 0) by (nonlinear_arith);
    while y < ys
        invariant
            patient.addressable(),
            xs == patient.x_size,
            ys == patient.y_size,
            zs == patient.z_size,
            0 <= x < xs,
            0 <= y <= ys,
            indices.len() == slice_slot(*patient, y as int, 0),
            forall|slot: int|
                0 <= slot < indices.len() ==> #[trigger] indices[slot] < patient.volume(),
            forall|j: int, k: int|
                0 <= j < y && 0 <= k < zs ==> {
                    &&& 0 <= slice_slot(*patient, j, k) < indices.len()
                    &&& indices[#[trigger] slice_slot(*patient, j, k)] == patient.index_of(
                        x as int,
                        j,
                        k,
                    )
                },
        decreases ys - y,
    {
        let mut z: i64 = 0;
        while z < zs
            invariant
                patient.addressable(),
                xs == patient.x_size,
                ys == patient.y_size,
                zs == patient.z_size,
                0 <= x < xs,
                0 <= y < ys,
                0 <= z <= zs,
                indices.len() == slice_slot(*patient, y as int, z as int),
                forall|slot: int|
                    0 <= slot < indices.len() ==> #[trigger] indices[slot] < patient.volume(),
                forall|j: int, k: int|
                    (0 <= j < y && 0 <= k < zs) || (j == y && 0 <= k < z) ==> {
                        &&& 0 <= slice_slot(*patient, j, k) < indices.len()
                        &&& indices[#[trigger] slice_slot(*patient, j, k)] == patient.index_of(
                            x as int,
                            j,
                            k,
                        )
                    },
            decreases zs - z,
        {
            proof {
                lemma_index_in_grid(*patient, x as int, y as int, z as int);
                lemma_extents_in_grid(*patient);
            }
            let index = to_index(x as usize, y as usize, z as usize, xs as usize, ys as usize);
            let ghost before = indices@;
            indices.push(index);
            proof {
                assert forall|j: int, k: int|
                    (0 <= j < y && 0 <= k < zs) || (j == y && 0 <= k < z + 1) implies {
                    &&& 0 <= slice_slot(*patient, j, k) < indices.len()
                    &&& indices[#[trigger] slice_slot(*patient, j, k)] == patient.index_of(
                        x as int,
                        j,
                        k,
                    )
                } by {
                    if j == y && k == z {
                    } else {
                        assert(0 <= slice_slot(*patient, j, k) < before.len());
                        assert(indices[slice_slot(*patient, j, k)] == before[slice_slot(
                            *patient,
                            j,
                            k,
                        )]);
                    }
                }
            }
            z += 1;
        }
        assert(slice_slot(*patient, y as int, zs as int) == slice_slot(*patient, y as int + 1, 0))
            by (nonlinear_arith)
            requires
                zs == patient.z_size,
        ;
        y += 1;
    }
    assert(slice_slot(*patient, ys as int, 0) == slice_len(*patient)) by (nonlinear_arith)
        requires
            ys == patient.y_size,
    ;
    indices
}

} // verus!
