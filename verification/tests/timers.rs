use udp_polygon::config::{Address, Config, FromArguments, IpAddr};
use udp_polygon::timers::{RetransmitTask, TimerAction, Timers};
use udp_polygon::Polygon;

fn loopback(port: u16) -> Address {
    Address { ip: IpAddr::V4(127, 0, 0, 1), port }
}

fn spawn_task(delays: Vec<u64>) -> RetransmitTask {
    let config = Config::from_arguments(vec![loopback(0)], Some(loopback(5061)));
    let mut polygon = Polygon::configure(config).unwrap();
    polygon.send_with_timer(b"payload".to_vec(), Timers { delays })
}

#[test]
fn full_schedule_sends_every_delay() {
    let mut task = spawn_task(vec![500, 600, 1000, 1500]);
    let mut seen: Vec<u64> = Vec::new();
    loop {
        match task.next_action(false) {
            TimerAction::Transmit { delay_ms } => {
                task.record_send();
                seen.push(delay_ms);
            }
            TimerAction::Finished => break,
        }
    }
    assert_eq!(seen, vec![500, 600, 1000, 1500]);
    assert_eq!(task.sent, 4);
    assert!(task.stopped);
}

#[test]
fn pause_after_second_send_stops_the_run() {
    let mut task = spawn_task(vec![500, 600, 1000, 1500]);
    assert_eq!(task.next_action(false), TimerAction::Transmit { delay_ms: 500 });
    task.record_send();
    assert_eq!(task.next_action(false), TimerAction::Transmit { delay_ms: 600 });
    task.record_send();
    assert_eq!(task.next_action(true), TimerAction::Finished);
    assert_eq!(task.sent, 2);
    assert_eq!(task.taken, 2);
    assert!(task.stopped);
}

#[test]
fn pause_before_first_send_does_not_cancel_it() {
    let mut task = spawn_task(vec![500, 600]);
    assert_eq!(task.next_action(true), TimerAction::Transmit { delay_ms: 500 });
    task.record_send();
    assert_eq!(task.next_action(true), TimerAction::Finished);
    assert_eq!(task.sent, 1);
}

#[test]
fn empty_schedule_sends_nothing() {
    let mut task = spawn_task(Vec::new());
    assert_eq!(task.next_action(false), TimerAction::Finished);
    assert_eq!(task.sent, 0);
    assert_eq!(task.taken, 0);
    assert!(task.stopped);
}

#[test]
fn send_error_ends_the_run() {
    let mut task = spawn_task(vec![500, 600]);
    assert_eq!(task.next_action(false), TimerAction::Transmit { delay_ms: 500 });
    task.record_send_error();
    assert!(task.stopped);
    assert_eq!(task.next_action(false), TimerAction::Finished);
    assert_eq!(task.sent, 0);
}

#[test]
fn task_captures_payload_and_destination() {
    let task = spawn_task(vec![100]);
    assert_eq!(task.payload, b"payload".to_vec());
    assert_eq!(task.destination, loopback(5061));
}
