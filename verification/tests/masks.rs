use tumour_nuker::beam_utils::{PatientBox, TissueBox, TissueType};
use tumour_nuker::cost::{classify_voxel, parallel_intersections, sweep, VoxelTally, VoxelVisit};
use tumour_nuker::mask::{Mask, MaskHolder};

const PATIENT: PatientBox = PatientBox { x_size: 100, y_size: 50, z_size: 30 };

fn region(centre: (i64, i64, i64), width: (i64, i64, i64), kind: Option<TissueType>) -> TissueBox {
    TissueBox {
        x: centre.0,
        y: centre.1,
        z: centre.2,
        x_width: width.0,
        y_width: width.1,
        z_width: width.2,
        tissue_type: kind,
    }
}

fn clinical_masks() -> Vec<Mask> {
    vec![
        Mask::from_tissue_box(
            &region((40, 35, 12), (5, 5, 5), Some(TissueType::Tumour)),
            &PATIENT,
        ),
        Mask::from_tissue_box(
            &region((42, 38, 18), (3, 3, 3), Some(TissueType::SerialOrgan)),
            &PATIENT,
        ),
        Mask::from_tissue_box(
            &region((50, 20, 12), (30, 15, 10), Some(TissueType::ParallelOrgan)),
            &PATIENT,
        ),
    ]
}

#[test]
fn mask_halves_the_widths() {
    let masks = clinical_masks();
    assert_eq!(
        masks[0],
        Mask { x0: 38, x1: 42, y0: 33, y1: 37, z0: 10, z1: 14, t_type: Some(TissueType::Tumour) }
    );
    assert_eq!(
        masks[1],
        Mask {
            x0: 41,
            x1: 43,
            y0: 37,
            y1: 39,
            z0: 17,
            z1: 19,
            t_type: Some(TissueType::SerialOrgan)
        }
    );
    assert_eq!(
        masks[2],
        Mask {
            x0: 35,
            x1: 65,
            y0: 13,
            y1: 27,
            z0: 7,
            z1: 17,
            t_type: Some(TissueType::ParallelOrgan)
        }
    );
}

#[test]
fn mask_is_clamped_to_the_patient_box() {
    let mask = Mask::from_tissue_box(&region((2, 48, 29), (10, 10, 10), None), &PATIENT);
    assert_eq!(mask, Mask { x0: 0, x1: 7, y0: 43, y1: 50, z0: 24, z1: 30, t_type: None });
    let huge = Mask::from_tissue_box(
        &region((i64::MIN, i64::MAX, 0), (i64::MAX, i64::MAX, i64::MAX), None),
        &PATIENT,
    );
    assert_eq!(huge.x0, 0);
    assert_eq!(huge.x1, -4611686018427387905);
    assert_eq!(huge.y0, 4611686018427387904);
    assert_eq!(huge.y1, 50);
    assert_eq!(huge.z0, 0);
    assert_eq!(huge.z1, 30);
}

#[test]
fn mask_contains_its_centroid() {
    for x in [0, 1, 40, 99, 100] {
        for y in [0, 25, 50] {
            for z in [0, 12, 30] {
                for width in [0, 1, 2, 5, 1000] {
                    let t_box = region((x, y, z), (width, width, width), None);
                    let mask = Mask::from_tissue_box(&t_box, &PATIENT);
                    assert!(mask.bound_check(x, y, z));
                    assert!(mask.x0 <= mask.x1 && mask.y0 <= mask.y1 && mask.z0 <= mask.z1);
                }
            }
        }
    }
}

#[test]
fn bound_check_is_inclusive() {
    let mask = Mask { x0: 38, x1: 42, y0: 33, y1: 37, z0: 10, z1: 14, t_type: None };
    assert!(mask.bound_check(38, 33, 10));
    assert!(mask.bound_check(42, 37, 14));
    assert!(mask.bound_check(40, 35, 12));
    assert!(!mask.bound_check(37, 35, 12));
    assert!(!mask.bound_check(43, 35, 12));
    assert!(!mask.bound_check(40, 32, 12));
    assert!(!mask.bound_check(40, 38, 12));
    assert!(!mask.bound_check(40, 35, 9));
    assert!(!mask.bound_check(40, 35, 15));
}

#[test]
fn mask_holder_keeps_its_masks() {
    let holder = MaskHolder { masks: clinical_masks() };
    assert_eq!(holder.masks.len(), 3);
    assert_eq!(holder.masks[0].t_type, Some(TissueType::Tumour));
}

#[test]
fn voxel_is_tallied_once_per_mask() {
    let masks = clinical_masks();
    assert_eq!(
        classify_voxel(&masks, 0, 0, 0),
        VoxelTally { tumour: 0, serial: 0, parallel: 0, healthy: true }
    );
    assert_eq!(
        classify_voxel(&masks, 40, 35, 12),
        VoxelTally { tumour: 1, serial: 0, parallel: 0, healthy: false }
    );
    assert_eq!(
        classify_voxel(&masks, 42, 38, 18),
        VoxelTally { tumour: 0, serial: 1, parallel: 0, healthy: false }
    );
    assert_eq!(
        classify_voxel(&masks, 50, 20, 12),
        VoxelTally { tumour: 0, serial: 0, parallel: 1, healthy: false }
    );
    let overlapping = vec![masks[0], masks[0], masks[2], Mask { t_type: None, ..masks[0] }];
    assert_eq!(
        classify_voxel(&overlapping, 40, 35, 12),
        VoxelTally { tumour: 2, serial: 0, parallel: 0, healthy: false }
    );
    let untyped = vec![Mask { t_type: None, ..masks[0] }];
    assert_eq!(
        classify_voxel(&untyped, 40, 35, 12),
        VoxelTally { tumour: 0, serial: 0, parallel: 0, healthy: false }
    );
    assert_eq!(
        classify_voxel(&Vec::new(), 40, 35, 12),
        VoxelTally { tumour: 0, serial: 0, parallel: 0, healthy: true }
    );
}

#[test]
fn sweep_runs_x_outermost() {
    let patient = PatientBox { x_size: 3, y_size: 2, z_size: 2 };
    let masks = vec![Mask {
        x0: 1,
        x1: 1,
        y0: 0,
        y1: 1,
        z0: 1,
        z1: 5,
        t_type: Some(TissueType::ParallelOrgan),
    }];
    let visits = sweep(&patient, &masks);
    let indices: Vec<usize> = visits.iter().map(|visit| visit.index).collect();
    assert_eq!(indices, vec![0, 6, 3, 9, 1, 7, 4, 10, 2, 8, 5, 11]);
    let healthy = VoxelTally { tumour: 0, serial: 0, parallel: 0, healthy: true };
    let organ = VoxelTally { tumour: 0, serial: 0, parallel: 1, healthy: false };
    assert_eq!(visits[4], VoxelVisit { index: 1, tally: healthy });
    assert_eq!(visits[5], VoxelVisit { index: 7, tally: organ });
    assert_eq!(visits[7], VoxelVisit { index: 10, tally: organ });
    assert_eq!(visits.iter().filter(|visit| visit.tally == organ).count(), 2);
    assert_eq!(parallel_intersections(&visits), 2);
}

#[test]
fn sweep_of_the_clinical_case() {
    let masks = clinical_masks();
    let visits = sweep(&PATIENT, &masks);
    assert_eq!(visits.len(), 150_000);
    let tumour: usize = visits.iter().map(|visit| visit.tally.tumour).sum();
    let serial: usize = visits.iter().map(|visit| visit.tally.serial).sum();
    let healthy = visits.iter().filter(|visit| visit.tally.healthy).count();
    assert_eq!(tumour, 5 * 5 * 5);
    assert_eq!(serial, 3 * 3 * 3);
    assert_eq!(parallel_intersections(&visits), 31 * 15 * 11);
    assert_eq!(parallel_intersections(&Vec::new()), 0);
    assert_eq!(healthy, 150_000 - 125 - 27 - 5115);
    for (rank, visit) in visits.iter().enumerate() {
        let x = rank / (50 * 30);
        let y = (rank / 30) % 50;
        let z = rank % 30;
        assert_eq!(visit.index, x + 100 * (y + 50 * z));
        assert_eq!(visit.tally, classify_voxel(&masks, x as i64, y as i64, z as i64));
    }
}
