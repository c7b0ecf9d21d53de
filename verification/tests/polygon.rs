use udp_polygon::config::{Address, Config, FromArguments, IpAddr};
use udp_polygon::timers::Timers;
use udp_polygon::{Polygon, PolygonError};

fn loopback(port: u16) -> Address {
    Address { ip: IpAddr::V4(127, 0, 0, 1), port }
}

#[test]
fn configure_binds_successfully() {
    let config = Config::from_arguments(vec![loopback(0)], None);
    let polygon = Polygon::configure(config);
    assert!(polygon.is_ok());
}

#[test]
fn configure_rejects_empty_bind_list() {
    let config = Config::from_arguments(vec![], None);
    let polygon = Polygon::configure(config);
    assert_eq!(polygon.unwrap_err(), PolygonError::Bind);
}

#[test]
fn configure_starts_with_signal_clear() {
    let config = Config::from_arguments(vec![loopback(0)], Some(loopback(5061)));
    let polygon = Polygon::configure(config).unwrap();
    assert!(!polygon.paused);
    assert_eq!(polygon.destination, Some(loopback(5061)));
}

#[test]
fn send_without_destination_returns_error() {
    let config = Config::from_arguments(vec![loopback(0)], None);
    let mut polygon = Polygon::configure(config).unwrap();
    let result = polygon.send(b"hello".to_vec());
    assert!(result.is_err());
    assert_eq!(result.unwrap_err(), PolygonError::NotConnected);
}

#[test]
fn send_with_destination_yields_payload_unchanged() {
    let config = Config::from_arguments(vec![loopback(0)], Some(loopback(5061)));
    let mut polygon = Polygon::configure(config).unwrap();
    let datagram = polygon.send(vec![1, 2, 3]).unwrap();
    assert_eq!(datagram.payload, vec![1, 2, 3]);
    assert_eq!(datagram.destination, loopback(5061));
}

#[test]
fn change_destination_updates_address() {
    let config = Config::from_arguments(vec![loopback(0)], None);
    let mut polygon = Polygon::configure(config).unwrap();
    assert!(polygon.destination.is_none());
    let new_dest = loopback(9999);
    polygon.change_destination(new_dest);
    assert_eq!(polygon.destination, Some(new_dest));
}

#[test]
fn change_destination_spares_a_running_task() {
    let config = Config::from_arguments(vec![loopback(0)], Some(loopback(5061)));
    let mut polygon = Polygon::configure(config).unwrap();
    let task = polygon.send_with_timer(vec![9], Timers { delays: vec![500] });
    polygon.change_destination(loopback(7777));
    assert_eq!(task.destination, loopback(5061));
    let datagram = polygon.send(vec![8]).unwrap();
    assert_eq!(datagram.destination, loopback(7777));
}

#[test]
fn pause_and_resume_set_the_signal() {
    let config = Config::from_arguments(vec![loopback(0)], None);
    let mut polygon = Polygon::configure(config).unwrap();
    assert!(!polygon.paused);
    polygon.pause_timer_send();
    assert!(polygon.paused);
    polygon.resume_timer_send();
    assert!(!polygon.paused);
    polygon.cancel_timer_receive();
    assert!(polygon.paused);
}
