use vstd::prelude::*;

use crate::geometry::Point3;
use crate::navmesh::{MalformedGeometryError, MeshGeometry};

verus! {

/// The lowest height among `points` (which must not be empty).
pub open spec fn lowest_y(points: Seq<Point3>) -> i32
    decreases points.len(),
{
    if points.len() <= 1 {
        points[0].y
    } else {
        let rest = lowest_y(points.drop_last());
        if points.last().y < rest {
            points.last().y
        } else {
            rest
        }
    }
}

/// Every point moved to height `y`.
pub open spec fn flattened(points: Seq<Point3>, y: i32) -> Seq<Point3> {
    points.map_values(|p: Point3| Point3 { x: p.x, y, z: p.z })
}

/// `sorted` with `p` inserted after every point whose x is not greater than its
/// own.
pub open spec fn insert_by_x(sorted: Seq<Point3>, p: Point3) -> Seq<Point3>
    decreases sorted.len(),
{
    if sorted.len() == 0 {
        seq![p]
    } else if sorted.last().x <= p.x {
        sorted.push(p)
    } else {
        insert_by_x(sorted.drop_last(), p).push(sorted.last())
    }
}

/// `points` sorted by x; points with equal x keep their order.
pub open spec fn sorted_by_x(points: Seq<Point3>) -> Seq<Point3>
    decreases points.len(),
{
    if points.len() == 0 {
        Seq::empty()
    } else {
        insert_by_x(sorted_by_x(points.drop_last()), points.last())
    }
}

/// `points` with each run of equal neighbours cut down to one point.
pub open spec fn deduplicated(points: Seq<Point3>) -> Seq<Point3>
    decreases points.len(),
{
    if points.len() == 0 {
        Seq::empty()
    } else {
        let rest = deduplicated(points.drop_last());
        if rest.len() > 0 && rest.last() == points.last() {
            rest
        } else {
            rest.push(points.last())
        }
    }
}

/// The track through `points`: flattened to their lowest height, sorted by x,
/// without repeated neighbours.
pub open spec fn track_of(points: Seq<Point3>) -> Seq<Point3> {
    deduplicated(sorted_by_x(flattened(points, lowest_y(points))))
}

proof fn lemma_insert_len(sorted: Seq<Point3>, p: Point3)
    ensures
        insert_by_x(sorted, p).len() == sorted.len() + 1,
    decreases sorted.len(),
{
    if sorted.len() > 0 && sorted.last().x > p.x {
        lemma_insert_len(sorted.drop_last(), p);
    }
}

proof fn lemma_sorted_len(points: Seq<Point3>)
    ensures
        sorted_by_x(points).len() == points.len(),
    decreases points.len(),
{
    if points.len() > 0 {
        lemma_sorted_len(points.drop_last());
        lemma_insert_len(sorted_by_x(points.drop_last()), points.last());
    }
}

/// Inserts `p` into `v` after every point whose x is not greater than its own.
fn insert_sorted(v: &mut Vec<Point3>, p: Point3)
    ensures
        final(v)@ == insert_by_x(old(v)@, p),
{
    let ghost s = v@;
    let mut k: usize = v.len();
    assert(s.take(k as int) =~= s);
    assert(s.skip(k as int) =~= Seq::<Point3>::empty());
    assert(insert_by_x(s, p) =~= insert_by_x(s.take(k as int), p) + s.skip(k as int));
    while k > 0 && v[k - 1].x > p.x
        invariant
            v@ == s,
            k <= s.len(),
            insert_by_x(s, p) == insert_by_x(s.take(k as int), p) + s.skip(k as int),
        decreases k,
    {
        proof {
            let t = s.take(k as int);
            assert(t.drop_last() =~= s.take(k as int - 1));
            assert(t.last() == s[k as int - 1]);
            assert(insert_by_x(t, p) == insert_by_x(s.take(k as int - 1), p).push(s[k as int - 1]));
            assert(insert_by_x(s.take(k as int - 1), p).push(s[k as int - 1]) + s.skip(k as int)
                =~= insert_by_x(s.take(k as int - 1), p) + s.skip(k as int - 1));
        }
        k -= 1;
    }
    proof {
        let t = s.take(k as int);
        if k > 0 {
            assert(t.last() == s[k as int - 1]);
        }
        assert(insert_by_x(t, p) =~= t.push(p));
        assert(s.insert(k as int, p) =~= t.push(p) + s.skip(k as int));
    }
    v.insert(k, p);
}

/// A path along the floor, as points ordered by x.
#[derive(Debug)]
pub struct Track(Vec<Point3>);

impl Track {
    #[verifier::type_invariant]
    spec fn inv(self) -> bool {
        self.0@.len() > 0
    }

    /// The points of the track, in order.
    pub closed spec fn spec_points(self) -> Seq<Point3> {
        self.0@
    }

    /// Builds a track from the vertices of a mesh: all are lowered to the lowest
    /// height among them, sorted by x (keeping the order of equal x), and runs of
    /// equal neighbours are cut down to one point.
    pub fn from_mesh(mesh: &MeshGeometry) -> (r: Result<Track, MalformedGeometryError>)
        ensures
            mesh.positions is None ==> r matches Err(MalformedGeometryError::MissingPositions),
            (mesh.positions matches Some(p) && p@.len() == 0) ==> r matches Err(
                MalformedGeometryError::NoVertices,
            ),
            (mesh.positions matches Some(p) && p@.len() > 0) ==> r is Ok,
            r matches Ok(t) ==> t.spec_points() == track_of(mesh.positions.unwrap()@),
    {
        let positions = match &mesh.positions {
            None => return Err(MalformedGeometryError::MissingPositions),
            Some(p) => p,
        };
        if positions.len() == 0 {
            return Err(MalformedGeometryError::NoVertices);
        }
        let ghost pts = positions@;
        let mut min_y: i32 = positions[0].y;
        let mut i: usize = 1;
        assert(pts.take(1).drop_last() =~= Seq::<Point3>::empty());
        while i < positions.len()
            invariant
                pts == positions@,
                1 <= i <= pts.len(),
                min_y == lowest_y(pts.take(i as int)),
            decreases pts.len() - i,
        {
            proof {
                assert(pts.take(i as int + 1).drop_last() =~= pts.take(i as int));
            }
            if positions[i].y < min_y {
                min_y = positions[i].y;
            }
            i += 1;
        }
        assert(pts.take(pts.len() as int) =~= pts);
        let ghost flat = flattened(pts, min_y);
        let mut sorted: Vec<Point3> = Vec::new();
        let mut i: usize = 0;
        while i < positions.len()
            invariant
                pts == positions@,
                flat == flattened(pts, min_y),
                i <= pts.len(),
                sorted@ == sorted_by_x(flat.take(i as int)),
            decreases pts.len() - i,
        {
            let p = Point3 { x: positions[i].x, y: min_y, z: positions[i].z };
            proof {
                assert(flat.take(i as int + 1).drop_last() =~= flat.take(i as int));
                assert(flat.take(i as int + 1).last() == p);
            }
            insert_sorted(&mut sorted, p);
            i += 1;
        }
        assert(flat.take(pts.len() as int) =~= flat);
        proof {
            lemma_sorted_len(flat);
        }
        let ghost ordered = sorted@;
        let mut points: Vec<Point3> = Vec::new();
        let mut i: usize = 0;
        while i < sorted.len()
            invariant
                ordered == sorted@,
                i <= ordered.len(),
                points@ == deduplicated(ordered.take(i as int)),
            decreases ordered.len() - i,
        {
            proof {
                assert(ordered.take(i as int + 1).drop_last() =~= ordered.take(i as int));
            }
            let p = sorted[i];
            let n = points.len();
            if n == 0 || points[n - 1] != p {
                points.push(p);
            }
            i += 1;
        }
        assert(ordered.take(ordered.len() as int) =~= ordered);
        assert(points@.len() > 0);
        Ok(Track(points))
    }

    /// The first point of the track, the one with the smallest x.
    pub fn first(&self) -> (r: Point3)
        ensures
            r == self.spec_points()[0],
    {
        proof {
            use_type_invariant(self);
        }
        self.0[0]
    }

    pub fn points(&self) -> (r: &Vec<Point3>)
        ensures
            r@ == self.spec_points(),
    {
        &self.0
    }
}

} // verus!
