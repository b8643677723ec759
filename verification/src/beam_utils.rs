//! Patient geometry: the voxel grid, its flattening, and the faces through
//! which beams enter.

use vstd::prelude::*;
use vstd::arithmetic::div_mod::{
    lemma_fundamental_div_mod,
    lemma_fundamental_div_mod_converse,
    lemma_mod_multiples_vanish,
    lemma_mod_pos_bound,
    lemma_div_pos_is_pos,
    lemma_multiply_divide_lt,
};
use vstd::arithmetic::mul::lemma_mul_strictly_positive;

verus! {

/// Extent of the discretised patient volume, in voxels per axis.
#[derive(Debug, Clone, Copy, PartialEq, Eq, Structural)]
pub struct PatientBox {
    pub x_size: i64,
    pub y_size: i64,
    pub z_size: i64,
}

/// Clinical role of a region of interest.
#[derive(Debug, Clone, Copy, PartialEq, Eq, Structural)]
pub enum TissueType {
    Tumour,
    SerialOrgan,
    ParallelOrgan,
}

/// A region of interest before discretisation: an integer centroid, the full
/// width along each axis, and the clinical role, if it has one.
#[derive(Debug, Clone, Copy, PartialEq, Eq, Structural)]
pub struct TissueBox {
    pub x: i64,
    pub y: i64,
    pub z: i64,
    pub x_width: i64,
    pub y_width: i64,
    pub z_width: i64,
    pub tissue_type: Option<TissueType>,
}

/// The six faces of the patient box, in the order in which beams are laid
/// out: one beam enters through each.
#[derive(Debug, Clone, Copy, PartialEq, Eq, Structural)]
pub enum PatientBoxSide {
    LeftFace,
    RightFace,
    FrontFace,
    BackFace,
    BottomFace,
    TopFace,
}

/// A coordinate axis of the patient box.
#[derive(Debug, Clone, Copy, PartialEq, Eq, Structural)]
pub enum Axis {
    X,
    Y,
    Z,
}

/// How one coordinate of a beam entry point is chosen.
#[derive(Debug, Clone, Copy, PartialEq, Eq, Structural)]
pub enum AxisPlacement {
    /// The coordinate is fixed at this value.
    Pinned(i64),
    /// The coordinate is drawn uniformly from zero up to, and excluding,
    /// this bound.
    Free(i64),
}

/// How the entry point of a beam through one face is chosen: the coordinate
/// across the face is pinned, the two along it are free.
#[derive(Debug, Clone, Copy, PartialEq, Eq, Structural)]
pub struct EntryPlacement {
    pub x: AxisPlacement,
    pub y: AxisPlacement,
    pub z: AxisPlacement,
}

/// The canonical flattening of voxel `(x, y, z)` in a grid that is `x_max`
/// wide and `y_max` deep: `x` runs fastest, then `y`, then `z`.
pub open spec fn flat_index(x: int, y: int, z: int, x_max: int, y_max: int) -> int {
    x + x_max * (y + y_max * z)
}

/// The voxel that a flat index addresses, as `(x, y, z)`.
pub open spec fn coords_of(index: int, x_max: int, y_max: int) -> (int, int, int) {
    (index % x_max, (index % (x_max * y_max)) / x_max, index / (x_max * y_max))
}

impl PatientBox {
    /// Every extent is positive.
    pub open spec fn wf(&self) -> bool {
        self.x_size > 0 && self.y_size > 0 && self.z_size > 0
    }

    /// Number of voxels, which is also the length of a dose grid.
    pub open spec fn volume(&self) -> int {
        self.x_size * self.y_size * self.z_size
    }

    /// The box is well formed and every voxel index fits both index types.
    pub open spec fn addressable(&self) -> bool {
        self.wf() && self.volume() <= i64::MAX && self.volume() <= usize::MAX
    }

    /// `(x, y, z)` names a voxel of the grid.
    pub open spec fn holds(&self, x: int, y: int, z: int) -> bool {
        0 <= x < self.x_size && 0 <= y < self.y_size && 0 <= z < self.z_size
    }

    /// Extent of the box along one axis.
    pub open spec fn extent(&self, axis: Axis) -> i64 {
        match axis {
            Axis::X => self.x_size,
            Axis::Y => self.y_size,
            Axis::Z => self.z_size,
        }
    }

    /// Flat index of voxel `(x, y, z)` in this box.
    pub open spec fn index_of(&self, x: int, y: int, z: int) -> int {
        flat_index(x, y, z, self.x_size as int, self.y_size as int)
    }

    /// Voxel count of the box.
    pub fn grid_size(&self) -> (n: i64)
        requires
            i64::MIN <= self.x_size * self.y_size <= i64::MAX,
            i64::MIN <= self.volume() <= i64::MAX,
        ensures
            n == self.volume(),
    {
        self.x_size * self.y_size * self.z_size
    }

    /// Decides whether the box can back a dose grid: positive extents and a
    /// voxel count within the range of `i64` and `usize`.
    pub fn is_addressable(&self) -> (ok: bool)
        ensures
            ok == self.addressable(),
    {
        if self.x_size <= 0 || self.y_size <= 0 || self.z_size <= 0 {
            return false;
        }
        let x: i128 = self.x_size as i128;
        let y: i128 = self.y_size as i128;
        let z: i128 = self.z_size as i128;
        let limit: i128 = i64::MAX as i128;
        assert(0 < x * y <= limit * limit) by (nonlinear_arith)
            requires
                0 < x <= limit,
                0 < y <= limit,
        ;
        let plane: i128 = x * y;
        if plane > limit {
            assert(x * y * z >= x * y) by (nonlinear_arith)
                requires
                    x * y > 0,
                    z >= 1,
            ;
            return false;
        }
        assert(0 < plane * z <= limit * limit) by (nonlinear_arith)
            requires
                0 < plane <= limit,
                0 < z <= limit,
        ;
        let total: i128 = plane * z;
        total <= limit && total <= usize::MAX as i128
    }
}

impl PatientBoxSide {
    /// The axis that the face is perpendicular to.
    pub open spec fn axis(self) -> Axis {
        match self {
            PatientBoxSide::LeftFace | PatientBoxSide::RightFace => Axis::X,
            PatientBoxSide::FrontFace | PatientBoxSide::BackFace => Axis::Y,
            PatientBoxSide::BottomFace | PatientBoxSide::TopFace => Axis::Z,
        }
    }

    /// Whether the face lies at the far edge of its axis rather than at zero.
    pub open spec fn is_far(self) -> bool {
        self == PatientBoxSide::RightFace || self == PatientBoxSide::BackFace || self
            == PatientBoxSide::TopFace
    }

    /// The faces in layout order.
    pub open spec fn all_faces() -> Seq<PatientBoxSide> {
        seq![
            PatientBoxSide::LeftFace,
            PatientBoxSide::RightFace,
            PatientBoxSide::FrontFace,
            PatientBoxSide::BackFace,
            PatientBoxSide::BottomFace,
            PatientBoxSide::TopFace,
        ]
    }

    /// Every face once, in layout order.
    pub fn all() -> (faces: Vec<PatientBoxSide>)
        ensures
            faces@ == Self::all_faces(),
    {
        let mut faces: Vec<PatientBoxSide> = Vec::new();
        faces.push(PatientBoxSide::LeftFace);
        faces.push(PatientBoxSide::RightFace);
        faces.push(PatientBoxSide::FrontFace);
        faces.push(PatientBoxSide::BackFace);
        faces.push(PatientBoxSide::BottomFace);
        faces.push(PatientBoxSide::TopFace);
        assert(faces@ =~= Self::all_faces());
        faces
    }
}

/// Placement of one coordinate of the entry point of a beam through `face`.
pub open spec fn placement_on(axis: Axis, face: PatientBoxSide, patient: PatientBox) -> AxisPlacement {
    if face.axis() != axis {
        AxisPlacement::Free(patient.extent(axis))
    } else if face.is_far() {
        AxisPlacement::Pinned(patient.extent(axis))
    } else {
        AxisPlacement::Pinned(0)
    }
}

/// Placement of the entry point of a beam through `face`.
pub open spec fn entry_placement(face: PatientBoxSide, patient: PatientBox) -> EntryPlacement {
    EntryPlacement {
        x: placement_on(Axis::X, face, patient),
        y: placement_on(Axis::Y, face, patient),
        z: placement_on(Axis::Z, face, patient),
    }
}

/// Says how the entry point of a beam through `face` is to be drawn: pinned
/// to the face, free within the extent of the face along the other two axes.
pub fn compute_beam_entry(face: &PatientBoxSide, patient_box: &PatientBox) -> (entry:
    EntryPlacement)
    ensures
        entry == entry_placement(*face, *patient_box),
{
    let x_free = AxisPlacement::Free(patient_box.x_size);
    let y_free = AxisPlacement::Free(patient_box.y_size);
    let z_free = AxisPlacement::Free(patient_box.z_size);
    match face {
        PatientBoxSide::LeftFace => EntryPlacement {
            x: AxisPlacement::Pinned(0),
            y: y_free,
            z: z_free,
        },
        PatientBoxSide::RightFace => EntryPlacement {
            x: AxisPlacement::Pinned(patient_box.x_size),
            y: y_free,
            z: z_free,
        },
        PatientBoxSide::FrontFace => EntryPlacement {
            x: x_free,
            y: AxisPlacement::Pinned(0),
            z: z_free,
        },
        PatientBoxSide::BackFace => EntryPlacement {
            x: x_free,
            y: AxisPlacement::Pinned(patient_box.y_size),
            z: z_free,
        },
        PatientBoxSide::BottomFace => EntryPlacement {
            x: x_free,
            y: y_free,
            z: AxisPlacement::Pinned(0),
        },
        PatientBoxSide::TopFace => EntryPlacement {
            x: x_free,
            y: y_free,
            z: AxisPlacement::Pinned(patient_box.z_size),
        },
    }
}

/// One entry placement per face of the box, in layout order.
pub fn generate_beam_entries(patient_box: &PatientBox) -> (beams: Vec<EntryPlacement>)
    ensures
        beams@ == PatientBoxSide::all_faces().map_values(
            |face: PatientBoxSide| entry_placement(face, *patient_box),
        ),
{
    let faces = PatientBoxSide::all();
    let mut beams: Vec<EntryPlacement> = Vec::new();
    let mut i: usize = 0;
    while i < faces.len()
        invariant
            i <= faces.len(),
            beams.len() == i,
            forall|k: int|
                0 <= k < i ==> beams[k] == entry_placement(#[trigger] faces[k], *patient_box),
        decreases faces.len() - i,
    {
        beams.push(compute_beam_entry(&faces[i], patient_box));
        i += 1;
    }
    assert(beams@ =~= PatientBoxSide::all_faces().map_values(
        |face: PatientBoxSide| entry_placement(face, *patient_box),
    ));
    beams
}

/// Flattens voxel coordinates into a grid index.
pub fn to_index(x: usize, y: usize, z: usize, x_max: usize, y_max: usize) -> (index: usize)
    requires
        y + y_max * z <= usize::MAX,
        flat_index(x as int, y as int, z as int, x_max as int, y_max as int) <= usize::MAX,
    ensures
        index == flat_index(x as int, y as int, z as int, x_max as int, y_max as int),
{
    assert(0 <= y_max * z) by (nonlinear_arith);
    let row: usize = y + y_max * z;
    assert(0 <= x_max * row) by (nonlinear_arith);
    x + x_max * row
}

/// Recovers the voxel coordinates that a grid index addresses.
pub fn to_coords(index: i64, x_max: i64, y_max: i64) -> (coords: (i64, i64, i64))
    requires
        0 <= index,
        0 < x_max,
        0 < y_max,
        x_max * y_max <= i64::MAX,
    ensures
        (coords.0 as int, coords.1 as int, coords.2 as int) == coords_of(
            index as int,
            x_max as int,
            y_max as int,
        ),
        0 <= coords.0 < x_max,
        0 <= coords.1 < y_max,
        0 <= coords.2,
        flat_index(coords.0 as int, coords.1 as int, coords.2 as int, x_max as int, y_max as int)
            == index,
{
    proof {
        lemma_flat_index_of_coords(index as int, x_max as int, y_max as int);
    }
    assert(0 < x_max * y_max) by (nonlinear_arith)
        requires
            0 < x_max,
            0 < y_max,
    ;
    let plane: i64 = x_max * y_max;
    let z: i64 = index / plane;
    let y: i64 = (index % plane) / x_max;
    let x: i64 = index % x_max;
    (x, y, z)
}

/// Unflattening undoes flattening: a voxel inside a grid of the given width
/// and depth is recovered from its flat index.
pub proof fn lemma_coords_of_flat_index(x: int, y: int, z: int, x_max: int, y_max: int)
    requires
        0 <= x < x_max,
        0 <= y < y_max,
        0 <= z,
    ensures
        coords_of(flat_index(x, y, z, x_max, y_max), x_max, y_max) == (x, y, z),
{
    let plane = x_max * y_max;
    let row = x + x_max * y;
    let index = flat_index(x, y, z, x_max, y_max);
    assert(0 <= row < plane) by (nonlinear_arith)
        requires
            row == x + x_max * y,
            plane == x_max * y_max,
            0 <= x < x_max,
            0 <= y < y_max,
    ;
    assert(index == z * plane + row) by (nonlinear_arith)
        requires
            index == x + x_max * (y + y_max * z),
            plane == x_max * y_max,
            row == x + x_max * y,
    ;
    lemma_fundamental_div_mod_converse(index, plane, z, row);
    assert(row == y * x_max + x) by (nonlinear_arith)
        requires
            row == x + x_max * y,
    ;
    lemma_fundamental_div_mod_converse(row, x_max, y, x);
    assert(index == (y + y_max * z) * x_max + x) by (nonlinear_arith)
        requires
            index == x + x_max * (y + y_max * z),
    ;
    lemma_fundamental_div_mod_converse(index, x_max, y + y_max * z, x);
}

/// Flattening undoes unflattening: every non-negative index addresses a
/// voxel whose `x` and `y` lie inside the grid and whose flat index is the
/// index itself.
pub proof fn lemma_flat_index_of_coords(index: int, x_max: int, y_max: int)
    requires
        0 <= index,
        0 < x_max,
        0 < y_max,
    ensures
        ({
            let (x, y, z) = coords_of(index, x_max, y_max);
            &&& 0 <= x < x_max
            &&& 0 <= y < y_max
            &&& 0 <= z
            &&& flat_index(x, y, z, x_max, y_max) == index
        }),
{
    let plane = x_max * y_max;
    lemma_mul_strictly_positive(x_max, y_max);
    let (x, y, z) = coords_of(index, x_max, y_max);
    let row = index % plane;
    lemma_fundamental_div_mod(index, plane);
    lemma_mod_pos_bound(index, plane);
    lemma_div_pos_is_pos(index, plane);
    lemma_fundamental_div_mod(row, x_max);
    lemma_mod_pos_bound(row, x_max);
    lemma_div_pos_is_pos(row, x_max);
    lemma_multiply_divide_lt(row, x_max, y_max);
    assert(index == x_max * (y_max * z) + row) by (nonlinear_arith)
        requires
            index == plane * z + row,
            plane == x_max * y_max,
    ;
    lemma_mod_multiples_vanish(y_max * z, row, x_max);
    assert(x == row % x_max);
    assert(flat_index(x, y, z, x_max, y_max) == index) by (nonlinear_arith)
        requires
            index == x_max * (y_max * z) + row,
            row == x_max * y + x,
    ;
}

/// A voxel of the box has a flat index inside the dose grid.
pub proof fn lemma_index_in_grid(patient: PatientBox, x: int, y: int, z: int)
    requires
        patient.holds(x, y, z),
    ensures
        0 <= patient.index_of(x, y, z) < patient.volume(),
        0 <= y + patient.y_size * z < patient.y_size * patient.z_size,
{
    let xs = patient.x_size as int;
    let ys = patient.y_size as int;
    let zs = patient.z_size as int;
    let row = y + ys * z;
    assert(0 <= row < ys * zs) by (nonlinear_arith)
        requires
            row == y + ys * z,
            0 <= y < ys,
            0 <= z < zs,
    ;
    assert(0 <= x + xs * row < xs * ys * zs) by (nonlinear_arith)
        requires
            0 <= x < xs,
            0 <= row < ys * zs,
    ;
}

/// No extent and no plane of a well-formed box holds more voxels than the
/// box.
pub proof fn lemma_extents_in_grid(patient: PatientBox)
    requires
        patient.wf(),
    ensures
        0 < patient.y_size * patient.z_size <= patient.volume(),
        0 < patient.x_size * patient.y_size <= patient.volume(),
        patient.x_size <= patient.volume(),
        patient.y_size <= patient.volume(),
        patient.z_size <= patient.volume(),
{
    let xs = patient.x_size as int;
    let ys = patient.y_size as int;
    let zs = patient.z_size as int;
    assert(0 < ys * zs <= xs * ys * zs && 0 < xs * ys <= xs * ys * zs) by (nonlinear_arith)
        requires
            0 < xs,
            0 < ys,
            0 < zs,
    ;
    assert(xs <= xs * ys && ys <= xs * ys && zs <= ys * zs) by (nonlinear_arith)
        requires
            0 < xs,
            0 < ys,
            0 < zs,
    ;
}

/// Within a patient box, unflattening undoes flattening: the coordinates of
/// a voxel are recovered from its flat index.
pub proof fn lemma_index_round_trip(patient: PatientBox, x: int, y: int, z: int)
    requires
        patient.holds(x, y, z),
    ensures
        coords_of(patient.index_of(x, y, z), patient.x_size as int, patient.y_size as int) == (
            x,
            y,
            z,
        ),
{
    lemma_coords_of_flat_index(x, y, z, patient.x_size as int, patient.y_size as int);
}

/// Two voxels of a patient box with the same flat index are the same voxel.
pub proof fn lemma_index_injective(
    patient: PatientBox,
    x1: int,
    y1: int,
    z1: int,
    x2: int,
    y2: int,
    z2: int,
)
    requires
        patient.holds(x1, y1, z1),
        patient.holds(x2, y2, z2),
        patient.index_of(x1, y1, z1) == patient.index_of(x2, y2, z2),
    ensures
        x1 == x2,
        y1 == y2,
        z1 == z2,
{
    lemma_index_round_trip(patient, x1, y1, z1);
    lemma_index_round_trip(patient, x2, y2, z2);
}

/// Every index of the dose grid addresses a voxel of the patient box, and
/// flattening that voxel gives the index back.
pub proof fn lemma_coords_in_grid(patient: PatientBox, index: int)
    requires
        patient.wf(),
        0 <= index < patient.volume(),
    ensures
        ({
            let (x, y, z) = coords_of(index, patient.x_size as int, patient.y_size as int);
            patient.holds(x, y, z) && patient.index_of(x, y, z) == index
        }),
{
    let xs = patient.x_size as int;
    let ys = patient.y_size as int;
    let zs = patient.z_size as int;
    lemma_flat_index_of_coords(index, xs, ys);
    lemma_mul_strictly_positive(xs, ys);
    assert(index < (xs * ys) * zs);
    lemma_multiply_divide_lt(index, xs * ys, zs);
}

} // verus!
