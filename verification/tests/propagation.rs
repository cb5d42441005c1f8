use game_server_architecture::EventError;
use game_server_architecture::GameEvent;
use game_server_architecture::GameServer;
use game_server_architecture::ServerCluster;
use game_server_architecture::SpatialPartition;
use game_server_architecture::Vector3;
use game_server_architecture::COORD_LIMIT;

fn event_at(x: i64, y: i64, z: i64, radius: i64) -> GameEvent {
    GameEvent::new(
        "Explosion".to_string(),
        Vector3::new(x, y, z),
        radius,
        serde_json::Value::Null,
    )
    .unwrap()
}

fn unit_box() -> SpatialPartition {
    SpatialPartition::new(Vector3::new(0, 0, 0), Vector3::new(100, 100, 100))
}

#[test]
fn contained_event_does_not_overflow() {
    let mut server = GameServer::new(unit_box());
    let event = event_at(50, 50, 50, 10);
    assert!(!server.process_event(&event));
}

#[test]
fn origin_outside_region_overflows() {
    let mut server = GameServer::new(unit_box());
    let event = event_at(150, 150, 150, 10);
    assert!(server.process_event(&event));
}

#[test]
fn radius_beyond_half_extent_overflows() {
    let mut server = GameServer::new(unit_box());
    let event = event_at(50, 50, 50, 60);
    assert!(server.process_event(&event));
}

#[test]
fn radius_at_exactly_half_extent_fits() {
    let mut server = GameServer::new(unit_box());
    assert!(!server.process_event(&event_at(50, 50, 50, 50)));
    assert!(server.process_event(&event_at(50, 50, 50, 51)));
}

#[test]
fn odd_extent_rounds_in_favor_of_fitting() {
    // Smallest extent 101: a radius of 50 is below half of it, 51 is above.
    let region = SpatialPartition::new(Vector3::new(0, 0, 0), Vector3::new(101, 101, 101));
    let mut server = GameServer::new(region);
    assert!(!server.process_event(&event_at(50, 50, 50, 50)));
    assert!(server.process_event(&event_at(50, 50, 50, 51)));
}

#[test]
fn far_event_triggers_only_cluster_boundary_check() {
    let mut cluster = ServerCluster::new(unit_box());
    cluster.add_server(GameServer::new(unit_box()));
    // Origin far outside every region, radius too small to reach any
    // server: the signal comes solely from the cluster-boundary check.
    let event = event_at(500, 500, 500, 1);
    assert!(cluster.propagate_event(&event));
}

#[test]
fn far_event_inside_cluster_region_does_not_overflow() {
    let wide = SpatialPartition::new(Vector3::new(0, 0, 0), Vector3::new(1000, 1000, 1000));
    let mut cluster = ServerCluster::new(wide);
    cluster.add_server(GameServer::new(unit_box()));
    // The origin stays within the cluster's own region and no server is
    // reached, so nothing reports overflow.
    let event = event_at(500, 500, 500, 1);
    assert!(!cluster.propagate_event(&event));
}

#[test]
fn contained_event_in_cluster_does_not_overflow() {
    let wide = SpatialPartition::new(Vector3::new(0, 0, 0), Vector3::new(1000, 1000, 1000));
    let mut cluster = ServerCluster::new(wide);
    cluster.add_server(GameServer::new(unit_box()));
    let event = event_at(50, 50, 50, 10);
    assert!(!cluster.propagate_event(&event));
}

#[test]
fn server_overflow_bubbles_up_to_cluster() {
    let wide = SpatialPartition::new(Vector3::new(0, 0, 0), Vector3::new(1000, 1000, 1000));
    let mut cluster = ServerCluster::new(wide);
    cluster.add_server(GameServer::new(unit_box()));
    // Origin inside the server but the radius breaches its boundary.
    let event = event_at(50, 50, 50, 60);
    assert!(cluster.propagate_event(&event));
}

#[test]
fn event_reached_by_radius_only_is_dispatched() {
    let wide = SpatialPartition::new(Vector3::new(0, 0, 0), Vector3::new(1000, 1000, 1000));
    let mut cluster = ServerCluster::new(wide);
    cluster.add_server(GameServer::new(unit_box()));
    // Origin outside the server's region, but the effective bounds reach
    // it; the dispatched server reports the out-of-bounds origin.
    let event = event_at(150, 50, 50, 60);
    assert!(cluster.propagate_event(&event));
}

#[test]
fn empty_cluster_reports_only_its_own_boundary() {
    let mut cluster = ServerCluster::new(unit_box());
    assert!(!cluster.propagate_event(&event_at(50, 50, 50, 10)));
    assert!(cluster.propagate_event(&event_at(500, 500, 500, 10)));
}

#[test]
fn event_new_accepts_well_formed_values() {
    let event = GameEvent::new(
        "Explosion".to_string(),
        Vector3::new(50, 50, 0),
        10,
        serde_json::Value::Bool(true),
    )
    .unwrap();
    assert_eq!(event.event_type, "Explosion");
    assert_eq!(event.position.x, 50);
    assert_eq!(event.radius, 10);
    assert_eq!(event.data, serde_json::Value::Bool(true));
}

#[test]
fn event_new_rejects_negative_radius() {
    let r = GameEvent::new(
        "Explosion".to_string(),
        Vector3::new(0, 0, 0),
        -1,
        serde_json::Value::Null,
    );
    assert_eq!(r.unwrap_err(), EventError::InvalidEvent);
}

#[test]
fn event_new_rejects_values_beyond_coordinate_limit() {
    let r = GameEvent::new(
        "Explosion".to_string(),
        Vector3::new(0, COORD_LIMIT + 1, 0),
        1,
        serde_json::Value::Null,
    );
    assert_eq!(r.unwrap_err(), EventError::InvalidEvent);
    let r = GameEvent::new(
        "Explosion".to_string(),
        Vector3::new(0, 0, 0),
        COORD_LIMIT + 1,
        serde_json::Value::Null,
    );
    assert_eq!(r.unwrap_err(), EventError::InvalidEvent);
    let ok = GameEvent::new(
        "Explosion".to_string(),
        Vector3::new(0, 0, 0),
        COORD_LIMIT,
        serde_json::Value::Null,
    );
    assert!(ok.is_ok());
}
