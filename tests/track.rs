use bevy_officespace::building::{is_track_name, sort_tracks_by_layer, track_layer};
use bevy_officespace::geometry::Point3;
use bevy_officespace::navmesh::{MalformedGeometryError, MeshGeometry};
use bevy_officespace::track::Track;

fn p(x: i32, y: i32, z: i32) -> Point3 {
    Point3::new(x, y, z)
}

fn track(points: Vec<Point3>) -> Track {
    Track::from_mesh(&MeshGeometry { positions: Some(points), indices: None }).unwrap()
}

#[test]
fn track_is_flattened_sorted_and_deduplicated() {
    let t = track(vec![p(5, 3, 1), p(1, 7, 2), p(3, 2, 0), p(1, 9, 2), p(3, 4, 9)]);
    assert_eq!(t.points().clone(), vec![p(1, 2, 2), p(3, 2, 0), p(3, 2, 9), p(5, 2, 1)]);
    assert_eq!(t.first(), p(1, 2, 2));
}

#[test]
fn equal_x_keeps_mesh_order() {
    let t = track(vec![p(0, 0, 5), p(0, 0, 1), p(0, 0, 5)]);
    assert_eq!(t.points().clone(), vec![p(0, 0, 5), p(0, 0, 1), p(0, 0, 5)]);
}

#[test]
fn track_errors() {
    let none = MeshGeometry { positions: None, indices: None };
    assert_eq!(Track::from_mesh(&none).unwrap_err(), MalformedGeometryError::MissingPositions);
    let empty = MeshGeometry { positions: Some(vec![]), indices: None };
    assert_eq!(Track::from_mesh(&empty).unwrap_err(), MalformedGeometryError::NoVertices);
}

#[test]
fn track_names_and_layers() {
    assert!(is_track_name("track_l3"));
    assert!(is_track_name("track_l"));
    assert!(!is_track_name("track"));
    assert!(!is_track_name("navmesh"));
    assert_eq!(track_layer("track_l3"), Some(3));
    assert_eq!(track_layer("track_l042"), Some(42));
    assert_eq!(track_layer("track_l+7"), Some(7));
    assert_eq!(track_layer("track_l"), None);
    assert_eq!(track_layer("track_l+"), None);
    assert_eq!(track_layer("track_l-1"), None);
    assert_eq!(track_layer("track_l1x"), None);
    assert_eq!(track_layer("track_l99999999999999999999999"), None);
    assert_eq!(track_layer("player"), None);
}

#[test]
fn tracks_are_ordered_by_layer() {
    let tracks = vec![
        (2, track(vec![p(20, 0, 0)])),
        (0, track(vec![p(0, 0, 0)])),
        (2, track(vec![p(21, 0, 0)])),
        (1, track(vec![p(10, 0, 0)])),
    ];
    let sorted = sort_tracks_by_layer(tracks);
    let firsts: Vec<(usize, i32)> = sorted.iter().map(|(layer, t)| (*layer, t.first().x)).collect();
    assert_eq!(firsts, vec![(0, 0), (1, 10), (2, 20), (2, 21)]);
}
