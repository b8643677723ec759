//! Region masks: clamped, axis-aligned bounding boxes in voxel coordinates.

use vstd::prelude::*;
use crate::beam_utils::{PatientBox, TissueBox, TissueType};

verus! {

/// The masks of one planning run.
pub struct MaskHolder {
    pub masks: Vec<Mask>,
}

/// A region of interest in voxel coordinates: inclusive bounds on each axis
/// and the clinical role of the region it was built from.
#[derive(Debug, Clone, Copy, PartialEq, Eq, Structural)]
pub struct Mask {
    pub x0: i64,
    pub x1: i64,
    pub y0: i64,
    pub y1: i64,
    pub z0: i64,
    pub z1: i64,
    pub t_type: Option<TissueType>,
}

/// Lower bound of a region along one axis: half the width below the
/// centre, but not below zero.
pub open spec fn lower_bound(centre: int, width: int) -> int {
    if centre - width / 2 < 0 {
        0
    } else {
        centre - width / 2
    }
}

/// Upper bound of a region along one axis: half the width above the
/// centre, but not above the extent of the patient box.
pub open spec fn upper_bound(centre: int, width: int, size: int) -> int {
    if centre + width / 2 > size {
        size
    } else {
        centre + width / 2
    }
}

impl TissueBox {
    /// No width is negative.
    pub open spec fn wf(&self) -> bool {
        self.x_width >= 0 && self.y_width >= 0 && self.z_width >= 0
    }

    /// The centroid lies within the patient box, its far edges included.
    pub open spec fn centred_in(&self, patient: PatientBox) -> bool {
        &&& 0 <= self.x <= patient.x_size
        &&& 0 <= self.y <= patient.y_size
        &&& 0 <= self.z <= patient.z_size
    }
}

impl Mask {
    /// The bounds are ordered on every axis.
    pub open spec fn wf(&self) -> bool {
        self.x0 <= self.x1 && self.y0 <= self.y1 && self.z0 <= self.z1
    }

    /// The point lies within the bounds, which are inclusive.
    pub open spec fn contains(&self, x: int, y: int, z: int) -> bool {
        &&& self.x0 <= x <= self.x1
        &&& self.y0 <= y <= self.y1
        &&& self.z0 <= z <= self.z1
    }

    /// This mask is the region `t_box` clamped to the patient box `p_box`.
    pub open spec fn covers(&self, t_box: TissueBox, p_box: PatientBox) -> bool {
        &&& self.x0 == lower_bound(t_box.x as int, t_box.x_width as int)
        &&& self.x1 == upper_bound(t_box.x as int, t_box.x_width as int, p_box.x_size as int)
        &&& self.y0 == lower_bound(t_box.y as int, t_box.y_width as int)
        &&& self.y1 == upper_bound(t_box.y as int, t_box.y_width as int, p_box.y_size as int)
        &&& self.z0 == lower_bound(t_box.z as int, t_box.z_width as int)
        &&& self.z1 == upper_bound(t_box.z as int, t_box.z_width as int, p_box.z_size as int)
        &&& self.t_type == t_box.tissue_type
    }

    /// Builds the mask of a region: each width is halved, and the bounds are
    /// clamped to the patient box. A centroid inside the patient box gives
    /// ordered bounds that enclose it.
    pub fn from_tissue_box(t_box: &TissueBox, p_box: &PatientBox) -> (mask: Mask)
        requires
            t_box.wf(),
        ensures
            mask.covers(*t_box, *p_box),
            t_box.centred_in(*p_box) ==> mask.wf() && mask.contains(
                t_box.x as int,
                t_box.y as int,
                t_box.z as int,
            ),
    {
        Mask {
            x0: clamp_low(t_box.x, t_box.x_width),
            x1: clamp_high(t_box.x, t_box.x_width, p_box.x_size),
            y0: clamp_low(t_box.y, t_box.y_width),
            y1: clamp_high(t_box.y, t_box.y_width, p_box.y_size),
            z0: clamp_low(t_box.z, t_box.z_width),
            z1: clamp_high(t_box.z, t_box.z_width, p_box.z_size),
            t_type: t_box.tissue_type,
        }
    }

    /// Inclusive range test on all three axes.
    pub fn bound_check(&self, x: i64, y: i64, z: i64) -> (inside: bool)
        ensures
            inside == self.contains(x as int, y as int, z as int),
    {
        x >= self.x0 && x <= self.x1 && y >= self.y0 && y <= self.y1 && z >= self.z0 && z
            <= self.z1
    }
}

fn clamp_low(centre: i64, width: i64) -> (bound: i64)
    requires
        width >= 0,
    ensures
        bound == lower_bound(centre as int, width as int),
{
    let low: i128 = centre as i128 - (width / 2) as i128;
    if low < 0 {
        0
    } else {
        low as i64
    }
}

fn clamp_high(centre: i64, width: i64, size: i64) -> (bound: i64)
    requires
        width >= 0,
    ensures
        bound == upper_bound(centre as int, width as int, size as int),
{
    let high: i128 = centre as i128 + (width / 2) as i128;
    if high > size as i128 {
        size
    } else {
        high as i64
    }
}

/// The mask of a region whose centroid lies within the patient box has
/// ordered bounds and contains that centroid.
pub proof fn lemma_mask_contains_centroid(mask: Mask, t_box: TissueBox, p_box: PatientBox)
    requires
        t_box.wf(),
        t_box.centred_in(p_box),
        mask.covers(t_box, p_box),
    ensures
        mask.wf(),
        mask.contains(t_box.x as int, t_box.y as int, t_box.z as int),
{
}

} // verus!
