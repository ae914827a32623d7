use bevy_officespace::geometry::{isqrt, Point3, COORD_LIMIT};
use bevy_officespace::navmesh::{MalformedGeometryError, MeshGeometry, NavMesh, Triangle};

/// Grid units per world unit in these tests.
const SCALE: f64 = 100000.0;

/// One world unit squared, in grid units squared.
const UNIT_AREA: u64 = 10_000_000_000;

fn grid(x: f64, y: f64, z: f64) -> Point3 {
    Point3::new(
        (x * SCALE).round() as i32,
        (y * SCALE).round() as i32,
        (z * SCALE).round() as i32,
    )
}

fn p(x: i32, y: i32, z: i32) -> Point3 {
    Point3::new(x, y, z)
}

#[test]
fn test_triangle_contains_point() {
    let triangle = Triangle(grid(0.0, 0.0, 0.0), grid(1.0, 0.0, 0.0), grid(0.0, 1.0, 0.0));
    assert!(triangle.contains_point(grid(0.5, 0.5, 0.0), UNIT_AREA));

    let triangle = Triangle(
        grid(-116.33986, 18.517029, 18.589056),
        grid(155.49776, 18.517029, 18.589056),
        grid(155.49776, 18.517029, 0.74437195),
    );
    assert!(triangle.contains_point(grid(151.41608, 18.517029, 8.589251), UNIT_AREA));
}

#[test]
fn isqrt_rounds_down() {
    assert_eq!(isqrt(0), 0);
    assert_eq!(isqrt(1), 1);
    assert_eq!(isqrt(15), 3);
    assert_eq!(isqrt(16), 4);
    assert_eq!(isqrt(17), 4);
    assert_eq!(isqrt(u128::MAX), u64::MAX);
}

#[test]
fn area_of_right_triangle() {
    // Legs of 4 and 3: area 6.
    assert_eq!(Triangle(p(0, 0, 0), p(4, 0, 0), p(0, 3, 0)).area(), 6);
    // Legs of 1 and 1: area one half, rounded down.
    assert_eq!(Triangle(p(0, 0, 0), p(1, 0, 0), p(0, 1, 0)).area(), 0);
    // Tilted out of the axis planes: (2,0,0) x (0,2,2) has length sqrt(32).
    assert_eq!(Triangle(p(0, 0, 0), p(2, 0, 0), p(0, 2, 2)).area(), 2);
    // At the coordinate limit.
    let l = COORD_LIMIT;
    assert_eq!(
        Triangle(p(-l, -l, 0), p(l, -l, 0), p(-l, l, 0)).area(),
        2 * (l as u64) * (l as u64)
    );
}

#[test]
fn convex_combinations_are_contained() {
    let t = Triangle(p(0, 0, 0), p(600, 0, 0), p(0, 600, 0));
    // Vertices, centroid and the point with weights 1/6, 2/6, 3/6.
    for q in [p(0, 0, 0), p(600, 0, 0), p(0, 600, 0), p(200, 200, 0), p(200, 300, 0)] {
        assert!(t.contains_point(q, 3), "{:?}", q);
    }
    // The same in a tilted plane.
    let t = Triangle(p(0, 0, 0), p(600, 0, 600), p(0, 600, 0));
    assert!(t.contains_point(p(200, 200, 200), 3));
}

#[test]
fn far_points_are_not_contained() {
    let t = Triangle(p(0, 0, 0), p(600, 0, 0), p(0, 600, 0));
    assert!(!t.contains_point(p(100000, 100000, 0), 3));
    assert!(!t.contains_point(p(-5000, 0, 0), 1000));
    assert!(!t.contains_point(grid(-9000.0, 9000.0, 0.0), UNIT_AREA));
}

#[test]
fn containment_is_invariant_under_rotation() {
    let (a, b, c) = (p(0, 0, 0), p(900, 100, 0), p(200, 700, 50));
    let points = [p(300, 300, 10), p(900, 100, 0), p(1000, 1000, 0), p(-50, 20, 0), p(450, 400, 25)];
    for tolerance in [0, 3, 1000, 100000] {
        for q in points {
            let r0 = Triangle(a, b, c).contains_point(q, tolerance);
            assert_eq!(Triangle(b, c, a).contains_point(q, tolerance), r0);
            assert_eq!(Triangle(c, a, b).contains_point(q, tolerance), r0);
        }
    }
}

#[test]
fn edge_points_are_contained_and_displaced_points_are_not() {
    let t = Triangle(p(0, 0, 0), p(1000, 0, 0), p(0, 1000, 0));
    // On each edge.
    assert!(t.contains_point(p(500, 0, 0), 3));
    assert!(t.contains_point(p(500, 500, 0), 3));
    assert!(t.contains_point(p(0, 250, 0), 3));
    // Across the edge y = 0, in the plane: the excess is twice the area of the
    // triangle to the edge, 1000 * 10 here.
    assert!(t.contains_point(p(500, -10, 0), 10001));
    assert!(!t.contains_point(p(500, -10, 0), 9999));
    // Raised above the plane over an inside point.
    assert!(!t.contains_point(p(250, 250, 400), 3));
    assert!(!t.contains_point(p(250, 250, 400), 1000));
}

#[test]
fn degenerate_triangles_contain_nothing() {
    let t = Triangle(p(0, 0, 0), p(100, 0, 0), p(200, 0, 0));
    assert!(!t.contains_point(p(50, 0, 0), 1_000_000));
    assert!(!t.contains_point(p(0, 0, 0), u64::MAX));
}

fn unit_square_mesh() -> MeshGeometry {
    MeshGeometry {
        positions: Some(vec![p(0, 0, 0), p(1000, 0, 0), p(1000, 1000, 0), p(0, 1000, 0)]),
        indices: Some(vec![0, 1, 2, 0, 2, 3]),
    }
}

#[test]
fn navmesh_from_mesh_groups_indices() {
    let nav = NavMesh::from_mesh(&unit_square_mesh(), 3).unwrap();
    assert_eq!(nav.tolerance(), 3);
    assert_eq!(
        nav.triangles().clone(),
        vec![
            Triangle(p(0, 0, 0), p(1000, 0, 0), p(1000, 1000, 0)),
            Triangle(p(0, 0, 0), p(1000, 1000, 0), p(0, 1000, 0)),
        ]
    );
    assert!(nav.contains_point(p(900, 100, 0)));
    assert!(nav.contains_point(p(100, 900, 0)));
    assert!(!nav.contains_point(p(1500, 500, 0)));
}

#[test]
fn navmesh_from_mesh_errors() {
    let mut mesh = unit_square_mesh();
    mesh.positions = None;
    assert_eq!(NavMesh::from_mesh(&mesh, 3).unwrap_err(), MalformedGeometryError::MissingPositions);

    let mut mesh = unit_square_mesh();
    mesh.indices = None;
    assert_eq!(NavMesh::from_mesh(&mesh, 3).unwrap_err(), MalformedGeometryError::MissingIndices);

    let mut mesh = unit_square_mesh();
    mesh.indices = Some(vec![0, 1, 2, 0]);
    assert_eq!(
        NavMesh::from_mesh(&mesh, 3).unwrap_err(),
        MalformedGeometryError::IndexCountNotMultipleOfThree
    );

    let mut mesh = unit_square_mesh();
    mesh.indices = Some(vec![0, 1, 4]);
    assert_eq!(NavMesh::from_mesh(&mesh, 3).unwrap_err(), MalformedGeometryError::IndexOutOfRange);

    let mut mesh = unit_square_mesh();
    mesh.positions = Some(vec![p(0, 0, 0), p(COORD_LIMIT + 1, 0, 0), p(0, 1, 0)]);
    mesh.indices = Some(vec![0, 1, 2]);
    assert_eq!(
        NavMesh::from_mesh(&mesh, 3).unwrap_err(),
        MalformedGeometryError::CoordinateOutOfRange
    );
}

#[test]
fn empty_navmesh_contains_nothing() {
    let nav = NavMesh::new(vec![], 1000);
    assert!(!nav.contains_point(p(0, 0, 0)));
    let mesh = MeshGeometry { positions: Some(vec![]), indices: Some(vec![]) };
    assert!(!NavMesh::from_mesh(&mesh, 5).unwrap().contains_point(p(0, 0, 0)));
}
