use game_server_architecture::SpatialPartition;
use game_server_architecture::Vector3;

fn unit_box() -> SpatialPartition {
    SpatialPartition::new(Vector3::new(0, 0, 0), Vector3::new(100, 100, 100))
}

#[test]
fn contains_interior_point() {
    let p = unit_box();
    assert!(p.contains(&Vector3::new(50, 50, 50)));
}

#[test]
fn contains_boundary_points_inclusive() {
    let p = unit_box();
    assert!(p.contains(&Vector3::new(0, 0, 0)));
    assert!(p.contains(&Vector3::new(100, 100, 100)));
    assert!(p.contains(&Vector3::new(0, 100, 50)));
}

#[test]
fn contains_rejects_outside_on_any_axis() {
    let p = unit_box();
    assert!(!p.contains(&Vector3::new(150, 150, 150)));
    assert!(!p.contains(&Vector3::new(101, 50, 50)));
    assert!(!p.contains(&Vector3::new(50, -1, 50)));
    assert!(!p.contains(&Vector3::new(50, 50, 101)));
}

#[test]
fn intersects_overlapping_boxes() {
    let a = unit_box();
    let b = SpatialPartition::new(Vector3::new(50, 50, 50), Vector3::new(150, 150, 150));
    assert!(a.intersects(&b));
}

#[test]
fn intersects_rejects_disjoint_boxes() {
    let a = unit_box();
    let c = SpatialPartition::new(Vector3::new(200, 200, 200), Vector3::new(300, 300, 300));
    assert!(!a.intersects(&c));
    assert!(!c.intersects(&a));
}

#[test]
fn intersects_is_symmetric() {
    let a = unit_box();
    let b = SpatialPartition::new(Vector3::new(50, 50, 50), Vector3::new(150, 150, 150));
    let c = SpatialPartition::new(Vector3::new(200, 200, 200), Vector3::new(300, 300, 300));
    assert_eq!(a.intersects(&b), b.intersects(&a));
    assert_eq!(a.intersects(&c), c.intersects(&a));
}

#[test]
fn intersects_is_reflexive() {
    let a = unit_box();
    assert!(a.intersects(&a));
}

#[test]
fn touching_boxes_intersect() {
    let a = unit_box();
    let b = SpatialPartition::new(Vector3::new(100, 0, 0), Vector3::new(200, 100, 100));
    assert!(a.intersects(&b));
    assert!(b.intersects(&a));
}

#[test]
fn expanded_by_grows_every_axis() {
    let p = SpatialPartition::new(Vector3::new(10, 20, 30), Vector3::new(40, 50, 60));
    let e = p.expanded_by(5);
    assert_eq!(e.min.x, 5);
    assert_eq!(e.min.y, 15);
    assert_eq!(e.min.z, 25);
    assert_eq!(e.max.x, 45);
    assert_eq!(e.max.y, 55);
    assert_eq!(e.max.z, 65);
}

#[test]
fn min_extent_is_shortest_axis() {
    let p = SpatialPartition::new(Vector3::new(0, 0, 0), Vector3::new(100, 30, 70));
    assert_eq!(p.min_extent(), 30);
    let q = SpatialPartition::new(Vector3::new(-10, -10, -10), Vector3::new(-10, 90, 90));
    assert_eq!(q.min_extent(), 0);
}

#[test]
fn vector3_new_sets_coordinates() {
    let v = Vector3::new(1, 2, 3);
    assert_eq!(v.x, 1);
    assert_eq!(v.y, 2);
    assert_eq!(v.z, 3);
}
