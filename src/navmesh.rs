use vstd::prelude::*;

use crate::geometry::{cross, doubled_area_squared, floor_sqrt, isqrt, norm_sq, Point3};

verus! {

/// Why source geometry cannot be turned into a navigation mesh or a track.
#[derive(Clone, Copy, Debug, PartialEq, Eq, Structural)]
pub enum MalformedGeometryError {
    /// The mesh has no vertex position buffer.
    MissingPositions,
    /// The mesh has no index buffer.
    MissingIndices,
    /// The index count is not a multiple of three.
    IndexCountNotMultipleOfThree,
    /// A vertex lies outside `COORD_LIMIT`.
    CoordinateOutOfRange,
    /// An index refers past the end of the vertex buffer.
    IndexOutOfRange,
    /// The mesh has no vertices at all.
    NoVertices,
}

/// Raw mesh geometry as an asset loader hands it over: an optional vertex
/// position buffer and an optional index buffer.
#[derive(Clone, Debug)]
pub struct MeshGeometry {
    pub positions: Option<Vec<Point3>>,
    pub indices: Option<Vec<u32>>,
}

/// A triangle in world space.
#[derive(Clone, Copy, Debug, PartialEq, Eq, Structural)]
pub struct Triangle(pub Point3, pub Point3, pub Point3);

impl Triangle {
    pub open spec fn in_range(self) -> bool {
        self.0.in_range() && self.1.in_range() && self.2.in_range()
    }

    /// The squared length of the edge cross product: four times the squared area.
    pub open spec fn doubled_area_sq(self) -> int {
        norm_sq(cross(self.0, self.1, self.2))
    }

    /// The area, rounded down. Half the length of the edge cross product, which is
    /// the quantity Heron's formula gives from the side lengths.
    pub open spec fn spec_area(self) -> int {
        floor_sqrt(self.doubled_area_sq()) / 2
    }

    /// The three vertices are collinear (or coincide): the triangle has no area.
    pub open spec fn is_degenerate(self) -> bool {
        self.doubled_area_sq() == 0
    }

    /// The sum of the areas of the triangles that `p` makes with each edge, less
    /// the area of the triangle itself. Zero for a point inside (up to rounding),
    /// positive outside.
    pub open spec fn area_excess(self, p: Point3) -> int {
        Triangle(p, self.0, self.1).spec_area() + Triangle(p, self.1, self.2).spec_area()
            + Triangle(p, self.2, self.0).spec_area() - self.spec_area()
    }

    /// The area-sum test: a triangle with area contains `p` when the area excess
    /// is less than `tolerance` in magnitude.
    pub open spec fn holds(self, p: Point3, tolerance: int) -> bool {
        !self.is_degenerate() && -tolerance < self.area_excess(p) < tolerance
    }

    pub fn new(a: Point3, b: Point3, c: Point3) -> (r: Triangle)
        ensures
            r == Triangle(a, b, c),
    {
        Triangle(a, b, c)
    }

    /// The area of the triangle, rounded down.
    pub fn area(&self) -> (r: u64)
        requires
            self.in_range(),
        ensures
            r == self.spec_area(),
    {
        let n = doubled_area_squared(self.0, self.1, self.2);
        isqrt(n) / 2
    }

    /// Returns true if the given point lies within the triangle, up to `tolerance`
    /// (an area, in grid units squared).
    pub fn contains_point(&self, point: Point3, tolerance: u64) -> (r: bool)
        requires
            self.in_range(),
            point.in_range(),
        ensures
            r == self.holds(point, tolerance as int),
    {
        if doubled_area_squared(self.0, self.1, self.2) == 0 {
            return false;
        }
        let area_main = self.area() as u128;
        let area1 = Triangle(point, self.0, self.1).area() as u128;
        let area2 = Triangle(point, self.1, self.2).area() as u128;
        let area3 = Triangle(point, self.2, self.0).area() as u128;
        let sum = area1 + area2 + area3;
        let tol = tolerance as u128;
        sum + tol > area_main && sum < area_main + tol
    }
}

/// The triangles that an index buffer makes of a vertex buffer, three indices
/// to a triangle.
pub open spec fn triangles_of(positions: Seq<Point3>, indices: Seq<u32>) -> Seq<Triangle> {
    Seq::new(
        indices.len() / 3,
        |k: int|
            Triangle(
                positions[indices[3 * k] as int],
                positions[indices[3 * k + 1] as int],
                positions[indices[3 * k + 2] as int],
            ),
    )
}

/// Why `mesh` cannot be a navigation mesh, if it cannot. The faults are tried
/// in this order: missing positions, missing indices, index count, a vertex out
/// of range, an index out of range.
pub open spec fn navmesh_fault(mesh: MeshGeometry) -> Option<MalformedGeometryError> {
    match mesh.positions {
        None => Some(MalformedGeometryError::MissingPositions),
        Some(positions) => match mesh.indices {
            None => Some(MalformedGeometryError::MissingIndices),
            Some(indices) => if indices@.len() % 3 != 0 {
                Some(MalformedGeometryError::IndexCountNotMultipleOfThree)
            } else if exists|i: int|
                0 <= i < positions@.len() && !(#[trigger] positions@[i]).in_range() {
                Some(MalformedGeometryError::CoordinateOutOfRange)
            } else if exists|i: int|
                0 <= i < indices@.len() && #[trigger] indices@[i] >= positions@.len() {
                Some(MalformedGeometryError::IndexOutOfRange)
            } else {
                None
            },
        },
    }
}

/// An immutable set of walkable triangles, queried for point containment.
#[derive(Debug)]
pub struct NavMesh {
    triangles: Vec<Triangle>,
    tolerance: u64,
}

impl NavMesh {
    #[verifier::type_invariant]
    spec fn inv(self) -> bool {
        forall|i: int| 0 <= i < self.triangles@.len() ==> (#[trigger] self.triangles@[i]).in_range()
    }

    /// The triangles of the mesh, in order.
    pub closed spec fn spec_triangles(self) -> Seq<Triangle> {
        self.triangles@
    }

    /// The containment tolerance, an area in grid units squared.
    pub closed spec fn spec_tolerance(self) -> u64 {
        self.tolerance
    }

    /// Some triangle of the mesh contains `p`.
    pub open spec fn holds(self, p: Point3) -> bool {
        exists|i: int|
            0 <= i < self.spec_triangles().len() && (#[trigger] self.spec_triangles()[i]).holds(
                p,
                self.spec_tolerance() as int,
            )
    }

    pub fn new(triangles: Vec<Triangle>, tolerance: u64) -> (r: NavMesh)
        requires
            forall|i: int| 0 <= i < triangles@.len() ==> (#[trigger] triangles@[i]).in_range(),
        ensures
            r.spec_triangles() == triangles@,
            r.spec_tolerance() == tolerance,
    {
        NavMesh { triangles, tolerance }
    }

    pub fn tolerance(&self) -> (r: u64)
        ensures
            r == self.spec_tolerance(),
    {
        self.tolerance
    }

    pub fn triangles(&self) -> (r: &Vec<Triangle>)
        ensures
            r@ == self.spec_triangles(),
    {
        &self.triangles
    }

    /// Builds the mesh from raw geometry, grouping the indices three at a time.
    pub fn from_mesh(mesh: &MeshGeometry, tolerance: u64) -> (r: Result<NavMesh, MalformedGeometryError>)
        ensures
            navmesh_fault(*mesh) is None <==> r is Ok,
            r matches Err(e) ==> navmesh_fault(*mesh) == Some(e),
            r matches Ok(nav) ==> nav.spec_triangles() == triangles_of(
                mesh.positions.unwrap()@,
                mesh.indices.unwrap()@,
            ) && nav.spec_tolerance() == tolerance,
    {
        let positions = match &mesh.positions {
            None => return Err(MalformedGeometryError::MissingPositions),
            Some(p) => p,
        };
        let indices = match &mesh.indices {
            None => return Err(MalformedGeometryError::MissingIndices),
            Some(i) => i,
        };
        if indices.len() % 3 != 0 {
            return Err(MalformedGeometryError::IndexCountNotMultipleOfThree);
        }
        let ghost spec_positions = positions@;
        let ghost spec_indices = indices@;
        assert(mesh.positions.unwrap()@ == spec_positions);
        assert(mesh.indices.unwrap()@ == spec_indices);
        let mut i: usize = 0;
        while i < positions.len()
            invariant
                mesh.positions is Some && mesh.positions.unwrap()@ == spec_positions,
                mesh.indices is Some && mesh.indices.unwrap()@ == spec_indices,
                spec_indices.len() % 3 == 0,
                spec_positions == positions@,
                i <= positions@.len(),
                forall|j: int| 0 <= j < i ==> (#[trigger] positions@[j]).in_range(),
            decreases positions@.len() - i,
        {
            if !positions[i].is_in_range() {
                assert(!spec_positions[i as int].in_range());
                return Err(MalformedGeometryError::CoordinateOutOfRange);
            }
            i += 1;
        }
        let mut i: usize = 0;
        while i < indices.len()
            invariant
                mesh.positions is Some && mesh.positions.unwrap()@ == spec_positions,
                mesh.indices is Some && mesh.indices.unwrap()@ == spec_indices,
                spec_indices.len() % 3 == 0,
                spec_positions == positions@,
                spec_indices == indices@,
                forall|j: int| 0 <= j < spec_positions.len() ==> (#[trigger] spec_positions[j]).in_range(),
                i <= indices@.len(),
                forall|j: int| 0 <= j < i ==> #[trigger] indices@[j] < positions@.len(),
            decreases indices@.len() - i,
        {
            if indices[i] as usize >= positions.len() {
                assert(spec_indices[i as int] >= spec_positions.len());
                return Err(MalformedGeometryError::IndexOutOfRange);
            }
            i += 1;
        }
        let mut triangles: Vec<Triangle> = Vec::new();
        let mut k: usize = 0;
        let n: usize = indices.len();
        let count: usize = n / 3;
        assert(3 * count == spec_indices.len());
        while k < count
            invariant
                mesh.positions is Some && mesh.positions.unwrap()@ == spec_positions,
                mesh.indices is Some && mesh.indices.unwrap()@ == spec_indices,
                spec_indices.len() % 3 == 0,
                3 * count == spec_indices.len(),
                n == spec_indices.len(),
                spec_positions == positions@,
                spec_indices == indices@,
                k <= count,
                forall|j: int| 0 <= j < spec_positions.len() ==> (#[trigger] spec_positions[j]).in_range(),
                forall|j: int| 0 <= j < spec_indices.len() ==> #[trigger] spec_indices[j] < spec_positions.len(),
                triangles@ == triangles_of(spec_positions, spec_indices).take(k as int),
            decreases count - k,
        {
            let a = positions[indices[3 * k] as usize];
            let b = positions[indices[3 * k + 1] as usize];
            let c = positions[indices[3 * k + 2] as usize];
            triangles.push(Triangle(a, b, c));
            k += 1;
            assert(triangles@ =~= triangles_of(spec_positions, spec_indices).take(k as int));
        }
        assert(triangles@ =~= triangles_of(spec_positions, spec_indices));
        Ok(NavMesh { triangles, tolerance })
    }

    /// Returns true if some triangle of the mesh contains the point.
    pub fn contains_point(&self, point: Point3) -> (r: bool)
        requires
            point.in_range(),
        ensures
            r == self.holds(point),
    {
        proof {
            use_type_invariant(self);
        }
        let mut i: usize = 0;
        while i < self.triangles.len()
            invariant
                i <= self.triangles@.len(),
                point.in_range(),
                forall|j: int| 0 <= j < self.triangles@.len() ==> (#[trigger] self.triangles@[j]).in_range(),
                forall|j: int| 0 <= j < i ==> !(#[trigger] self.triangles@[j]).holds(point, self.tolerance as int),
            decreases self.triangles@.len() - i,
        {
            if self.triangles[i].contains_point(point, self.tolerance) {
                assert(self.spec_triangles()[i as int].holds(point, self.spec_tolerance() as int));
                return true;
            }
            i += 1;
        }
        false
    }
}

} // verus!
