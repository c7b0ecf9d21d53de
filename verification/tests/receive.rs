use udp_polygon::config::{Address, Config, FromArguments, IpAddr};
use udp_polygon::receive::{take_datagram, ReceiveTask};
use udp_polygon::Polygon;

fn loopback(port: u16) -> Address {
    Address { ip: IpAddr::V4(127, 0, 0, 1), port }
}

#[test]
fn delivered_datagrams_keep_the_loop_running() {
    let mut task = ReceiveTask::start();
    assert!(task.running);
    assert!(task.on_datagram(&vec![1, 2], true));
    assert!(task.on_datagram(&vec![3], true));
    assert!(task.running);
}

#[test]
fn read_errors_are_not_fatal() {
    let mut task = ReceiveTask::start();
    assert!(task.on_read_error());
    assert!(task.running);
}

#[test]
fn lost_consumer_stops_the_loop_but_not_the_handle() {
    let config = Config::from_arguments(vec![loopback(0)], Some(loopback(5061)));
    let mut polygon = Polygon::configure(config).unwrap();
    let mut task = polygon.receive();
    assert!(task.on_datagram(&vec![1], true));
    assert!(!task.on_datagram(&vec![2], false));
    assert!(!task.running);
    // The handle is untouched: a plain send still works.
    let datagram = polygon.send(vec![7]).unwrap();
    assert_eq!(datagram.payload, vec![7]);
}

#[test]
fn take_datagram_copies_the_read_prefix() {
    let buffer = [10u8, 20, 30, 40, 50];
    assert_eq!(take_datagram(&buffer, 3), vec![10, 20, 30]);
    assert_eq!(take_datagram(&buffer, 0), Vec::<u8>::new());
    assert_eq!(take_datagram(&buffer, 5), vec![10, 20, 30, 40, 50]);
}
