//! Classification of voxels against the region masks: the integer half of
//! the cost function. The caller folds dose values over the sweep that this
//! module lays out.

use vstd::prelude::*;
use crate::beam_utils::{
    coords_of, flat_index, lemma_coords_of_flat_index, lemma_extents_in_grid, lemma_index_in_grid,
    to_index, PatientBox, TissueType,
};
use crate::mask::Mask;

verus! {

/// How one voxel counts in the cost function: how many masks of each role
/// contain it, and whether no mask contains it at all. A voxel inside
/// several masks counts once for each of them.
#[derive(Debug, Clone, Copy, PartialEq, Eq, Structural)]
pub struct VoxelTally {
    pub tumour: usize,
    pub serial: usize,
    pub parallel: usize,
    pub healthy: bool,
}

/// One step of the cost sweep: the dose-grid index of a voxel and its tally.
#[derive(Debug, Clone, Copy, PartialEq, Eq, Structural)]
pub struct VoxelVisit {
    pub index: usize,
    pub tally: VoxelTally,
}

/// Number of masks of role `kind` that contain the voxel.
pub open spec fn hits(masks: Seq<Mask>, kind: TissueType, x: int, y: int, z: int) -> nat
    decreases masks.len(),
{
    if masks.len() == 0 {
        0
    } else {
        let rest = hits(masks.drop_last(), kind, x, y, z);
        if masks.last().contains(x, y, z) && masks.last().t_type == Some(kind) {
            rest + 1
        } else {
            rest
        }
    }
}

/// No mask contains the voxel, whatever its role.
pub open spec fn unmatched(masks: Seq<Mask>, x: int, y: int, z: int) -> bool {
    forall|i: int| 0 <= i < masks.len() ==> !(#[trigger] masks[i]).contains(x, y, z)
}

/// The tally of a voxel against a list of masks.
pub open spec fn tally_of(masks: Seq<Mask>, x: int, y: int, z: int) -> VoxelTally {
    VoxelTally {
        tumour: hits(masks, TissueType::Tumour, x, y, z) as usize,
        serial: hits(masks, TissueType::SerialOrgan, x, y, z) as usize,
        parallel: hits(masks, TissueType::ParallelOrgan, x, y, z) as usize,
        healthy: unmatched(masks, x, y, z),
    }
}

/// Position of voxel `(x, y, z)` in the cost sweep, which runs over `x`
/// outermost and `z` innermost.
pub open spec fn sweep_rank(patient: PatientBox, x: int, y: int, z: int) -> int {
    flat_index(z, y, x, patient.z_size as int, patient.y_size as int)
}

/// What the sweep records for voxel `(x, y, z)`.
pub open spec fn visit_of(patient: PatientBox, masks: Seq<Mask>, x: int, y: int, z: int) -> VoxelVisit {
    VoxelVisit { index: patient.index_of(x, y, z) as usize, tally: tally_of(masks, x, y, z) }
}

/// Sum of the parallel-organ counts of a run of visits.
pub open spec fn parallel_total(visits: Seq<VoxelVisit>) -> nat
    decreases visits.len(),
{
    if visits.len() == 0 {
        0
    } else {
        parallel_total(visits.drop_last()) + visits.last().tally.parallel as nat
    }
}

/// No more masks of one role contain a voxel than there are masks.
pub proof fn lemma_hits_bounded(masks: Seq<Mask>, kind: TissueType, x: int, y: int, z: int)
    ensures
        hits(masks, kind, x, y, z) <= masks.len(),
    decreases masks.len(),
{
    if masks.len() > 0 {
        lemma_hits_bounded(masks.drop_last(), kind, x, y, z);
    }
}

/// Tallies one voxel against every mask.
pub fn classify_voxel(masks: &Vec<Mask>, x: i64, y: i64, z: i64) -> (tally: VoxelTally)
    ensures
        tally == tally_of(masks@, x as int, y as int, z as int),
{
    let mut tumour: usize = 0;
    let mut serial: usize = 0;
    let mut parallel: usize = 0;
    let mut healthy: bool = true;
    let mut i: usize = 0;
    while i < masks.len()
        invariant
            i <= masks.len(),
            tumour == hits(masks@.take(i as int), TissueType::Tumour, x as int, y as int, z as int),
            serial == hits(
                masks@.take(i as int),
                TissueType::SerialOrgan,
                x as int,
                y as int,
                z as int,
            ),
            parallel == hits(
                masks@.take(i as int),
                TissueType::ParallelOrgan,
                x as int,
                y as int,
                z as int,
            ),
            healthy == unmatched(masks@.take(i as int), x as int, y as int, z as int),
        decreases masks.len() - i,
    {
        let ghost before = masks@.take(i as int);
        let ghost after = masks@.take(i as int + 1);
        proof {
            assert(after.drop_last() =~= before);
            assert(after.last() == masks@[i as int]);
            lemma_hits_bounded(before, TissueType::Tumour, x as int, y as int, z as int);
            lemma_hits_bounded(before, TissueType::SerialOrgan, x as int, y as int, z as int);
            lemma_hits_bounded(before, TissueType::ParallelOrgan, x as int, y as int, z as int);
        }
        let mask = &masks[i];
        if mask.bound_check(x, y, z) {
            healthy = false;
            match mask.t_type {
                Some(TissueType::Tumour) => {
                    tumour += 1;
                },
                Some(TissueType::SerialOrgan) => {
                    serial += 1;
                },
                Some(TissueType::ParallelOrgan) => {
                    parallel += 1;
                },
                None => {},
            }
            assert(!unmatched(after, x as int, y as int, z as int)) by {
                assert(after[i as int].contains(x as int, y as int, z as int));
            }
        } else {
            assert(unmatched(after, x as int, y as int, z as int) == unmatched(
                before,
                x as int,
                y as int,
                z as int,
            )) by {
                assert(forall|k: int| 0 <= k < before.len() ==> before[k] == after[k]);
            }
        }
        i += 1;
    }
    assert(masks@.take(i as int) =~= masks@);
    VoxelTally { tumour, serial, parallel, healthy }
}

/// Lays out the cost sweep of a patient box: one visit per voxel, in sweep
/// order, each with the voxel's dose-grid index and its tally against the
/// masks. The layout depends on the geometry alone, so one sweep serves
/// every dose grid of a run.
pub fn sweep(patient: &PatientBox, masks: &Vec<Mask>) -> (visits: Vec<VoxelVisit>)
    requires
        patient.addressable(),
    ensures
        visits.len() == patient.volume(),
        forall|rank: int|
            0 <= rank < visits.len() ==> #[trigger] visits[rank] == visit_at(
                *patient,
                masks@,
                rank,
            ),
        forall|rank: int|
            0 <= rank < visits.len() ==> (#[trigger] visits[rank]).index < patient.volume(),
        forall|x: int, y: int, z: int|
            patient.holds(x, y, z) ==> {
                &&& 0 <= sweep_rank(*patient, x, y, z) < visits.len()
                &&& visits[#[trigger] sweep_rank(*patient, x, y, z)] == visit_of(
                    *patient,
                    masks@,
                    x,
                    y,
                    z,
                )
            },
{
    let xs: i64 = patient.x_size;
    let ys: i64 = patient.y_size;
    let zs: i64 = patient.z_size;
    let mut visits: Vec<VoxelVisit> = Vec::new();
    let mut x: i64 = 0;
    assert(sweep_rank(*patient, 0, 0, 0) == 0) by (nonlinear_arith);
    while x < xs
        invariant
            patient.addressable(),
            xs == patient.x_size,
            ys == patient.y_size,
            zs == patient.z_size,
            0 <= x <= xs,
            visits.len() == sweep_rank(*patient, x as int, 0, 0),
            forall|k: int|
                0 <= k < visits.len() ==> #[trigger] visits[k] == visit_at(*patient, masks@, k),
            forall|k: int| 0 <= k < visits.len() ==> (#[trigger] visits[k]).index < patient.volume(),
        decreases xs - x,
    {
        let mut y: i64 = 0;
        while y < ys
            invariant
                patient.addressable(),
                xs == patient.x_size,
                ys == patient.y_size,
                zs == patient.z_size,
                0 <= x < xs,
                0 <= y <= ys,
                visits.len() == sweep_rank(*patient, x as int, y as int, 0),
                forall|k: int|
                    0 <= k < visits.len() ==> #[trigger] visits[k] == visit_at(
                        *patient,
                        masks@,
                        k,
                    ),
                forall|k: int|
                    0 <= k < visits.len() ==> (#[trigger] visits[k]).index < patient.volume(),
            decreases ys - y,
        {
            let mut z: i64 = 0;
            while z < zs
                invariant
                    patient.addressable(),
                    xs == patient.x_size,
                    ys == patient.y_size,
                    zs == patient.z_size,
                    0 <= x < xs,
                    0 <= y < ys,
                    0 <= z <= zs,
                    visits.len() == sweep_rank(*patient, x as int, y as int, z as int),
                    forall|k: int|
                        0 <= k < visits.len() ==> #[trigger] visits[k] == visit_at(
                            *patient,
                            masks@,
                            k,
                        ),
                    forall|k: int|
                        0 <= k < visits.len() ==> (#[trigger] visits[k]).index
                            < patient.volume(),
                decreases zs - z,
            {
                proof {
                    lemma_index_in_grid(*patient, x as int, y as int, z as int);
                    lemma_extents_in_grid(*patient);
                    lemma_coords_of_flat_index(z as int, y as int, x as int, zs as int, ys as int);
                }
                let index = to_index(
                    x as usize,
                    y as usize,
                    z as usize,
                    xs as usize,
                    ys as usize,
                );
                let tally = classify_voxel(masks, x, y, z);
                visits.push(VoxelVisit { index, tally });
                assert(visits[visits.len() - 1] == visit_at(*patient, masks@, visits.len() - 1));
                z += 1;
            }
            assert(sweep_rank(*patient, x as int, y as int, zs as int) == sweep_rank(
                *patient,
                x as int,
                y as int + 1,
                0,
            )) by (nonlinear_arith)
                requires
                    zs == patient.z_size,
            ;
            y += 1;
        }
        assert(sweep_rank(*patient, x as int, ys as int, 0) == sweep_rank(
            *patient,
            x as int + 1,
            0,
            0,
        )) by (nonlinear_arith)
            requires
                ys == patient.y_size,
        ;
        x += 1;
    }
    proof {
        assert(visits.len() == patient.volume()) by (nonlinear_arith)
            requires
                visits.len() == sweep_rank(*patient, patient.x_size as int, 0, 0),
        ;
        assert forall|x: int, y: int, z: int| patient.holds(x, y, z) implies {
            &&& 0 <= sweep_rank(*patient, x, y, z) < visits.len()
            &&& visits[#[trigger] sweep_rank(*patient, x, y, z)] == visit_of(
                *patient,
                masks@,
                x,
                y,
                z,
            )
        } by {
            lemma_rank_in_sweep(*patient, x, y, z);
            lemma_coords_of_flat_index(z, y, x, zs as int, ys as int);
        }
    }
    visits
}

/// What the sweep records at position `rank`.
pub open spec fn visit_at(patient: PatientBox, masks: Seq<Mask>, rank: int) -> VoxelVisit {
    let (z, y, x) = coords_of(rank, patient.z_size as int, patient.y_size as int);
    visit_of(patient, masks, x, y, z)
}

/// A voxel of the box has a sweep position below the voxel count.
pub proof fn lemma_rank_in_sweep(patient: PatientBox, x: int, y: int, z: int)
    requires
        patient.holds(x, y, z),
    ensures
        0 <= sweep_rank(patient, x, y, z) < patient.volume(),
{
    let xs = patient.x_size as int;
    let ys = patient.y_size as int;
    let zs = patient.z_size as int;
    assert(0 <= z + zs * (y + ys * x) < xs * ys * zs) by (nonlinear_arith)
        requires
            0 <= x < xs,
            0 <= y < ys,
            0 <= z < zs,
    ;
}

/// Counts the voxel-and-mask matches with parallel organs over a run of
/// visits: the divisor of the mean parallel-organ dose.
pub fn parallel_intersections(visits: &Vec<VoxelVisit>) -> (total: u128)
    ensures
        total == parallel_total(visits@),
{
    let mut total: u128 = 0;
    let mut i: usize = 0;
    while i < visits.len()
        invariant
            i <= visits.len(),
            total == parallel_total(visits@.take(i as int)),
            total <= i * usize::MAX,
        decreases visits.len() - i,
    {
        proof {
            assert(visits@.take(i as int + 1).drop_last() =~= visits@.take(i as int));
            assert((i + 1) * usize::MAX == i * usize::MAX + usize::MAX) by (nonlinear_arith);
            assert(i * usize::MAX <= usize::MAX * usize::MAX) by (nonlinear_arith)
                requires
                    i <= usize::MAX,
            ;
            assert(usize::MAX * usize::MAX + usize::MAX <= u128::MAX) by (nonlinear_arith)
                requires
                    usize::MAX <= 0xffff_ffff_ffff_ffff,
            ;
        }
        total = total + visits[i].tally.parallel as u128;
        i += 1;
    }
    assert(visits@.take(i as int) =~= visits@);
    total
}

} // verus!
