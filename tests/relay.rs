use serial_bridge::bus::{Bus, Message, Received};
use serial_bridge::config::{Config, ConfigError};
use serial_bridge::endpoint::{is_transient, Action, Endpoint, Event, Phase, TransportError};
use serial_bridge::generate_uid;
use serial_bridge::hub::{Attachment, Hub};
use serial_bridge::ids::UidCounter;

fn attach(hub: &mut Hub) -> Attachment {
    hub.attach().expect("room for another endpoint")
}

/// Feeds a read into an endpoint and publishes what it asks to publish.
fn read_into(hub: &mut Hub, ep: &mut Endpoint, bytes: &[u8]) {
    match ep.handle(Event::Read(bytes.to_vec())) {
        Action::Publish(m) => {
            hub.publish(&m);
        }
        _ => panic!("a non-empty read must be published"),
    }
}

/// Drains an endpoint's subscription and collects what it writes.
fn drain(hub: &mut Hub, att: &mut Attachment) -> Vec<Vec<u8>> {
    let mut out = Vec::new();
    loop {
        let ev = hub.poll(att.key);
        let done = matches!(ev, Event::Drained);
        if let Action::Write(p) = att.endpoint.handle(ev) {
            out.push(p);
        }
        if done {
            return out;
        }
    }
}

#[test]
fn serial_read_reaches_every_client() {
    let mut hub = Hub::new(16);
    let mut serial = attach(&mut hub);
    let mut c1 = attach(&mut hub);
    let mut c2 = attach(&mut hub);
    read_into(&mut hub, &mut serial.endpoint, b"AT+ID?");
    assert_eq!(drain(&mut hub, &mut c1), vec![b"AT+ID?".to_vec()]);
    assert_eq!(drain(&mut hub, &mut c2), vec![b"AT+ID?".to_vec()]);
    assert!(drain(&mut hub, &mut serial).is_empty());
}

#[test]
fn client_write_reaches_serial_and_other_client_only() {
    let mut hub = Hub::new(16);
    let mut serial = attach(&mut hub);
    let mut c1 = attach(&mut hub);
    let mut c2 = attach(&mut hub);
    read_into(&mut hub, &mut c1.endpoint, b"OK");
    assert_eq!(drain(&mut hub, &mut serial), vec![b"OK".to_vec()]);
    assert_eq!(drain(&mut hub, &mut c2), vec![b"OK".to_vec()]);
    assert!(drain(&mut hub, &mut c1).is_empty());
}

#[test]
fn disconnect_leaves_others_unaffected() {
    let mut hub = Hub::new(16);
    let mut serial = attach(&mut hub);
    let mut c1 = attach(&mut hub);
    let mut c2 = attach(&mut hub);
    read_into(&mut hub, &mut serial.endpoint, b"one");
    // c2 reaches end of stream and stops reading, then runs dry and closes.
    assert!(matches!(c2.endpoint.handle(Event::Read(Vec::new())), Action::StopReading));
    assert_eq!(c2.endpoint.phase(), Phase::Closing);
    assert_eq!(drain(&mut hub, &mut c2), vec![b"one".to_vec()]);
    assert!(c2.endpoint.is_terminated());
    assert!(hub.detach(c2.key));
    assert!(!hub.detach(c2.key));

    read_into(&mut hub, &mut serial.endpoint, b"two");
    read_into(&mut hub, &mut c1.endpoint, b"reply");
    assert_eq!(drain(&mut hub, &mut c1), vec![b"one".to_vec(), b"two".to_vec()]);
    assert_eq!(drain(&mut hub, &mut serial), vec![b"reply".to_vec()]);
    assert!(matches!(hub.poll(c2.key), Event::Drained));
}

#[test]
fn read_timeout_is_not_published() {
    let mut hub = Hub::new(16);
    let mut serial = attach(&mut hub);
    let mut c1 = attach(&mut hub);
    let a = serial.endpoint.handle(Event::ReadFailed(TransportError::TimedOut));
    assert!(matches!(a, Action::Nothing));
    assert_eq!(serial.endpoint.phase(), Phase::Active);
    assert!(drain(&mut hub, &mut c1).is_empty());
    read_into(&mut hub, &mut serial.endpoint, b"AT");
    assert_eq!(drain(&mut hub, &mut c1), vec![b"AT".to_vec()]);
}

#[test]
fn fatal_read_error_stops_reading() {
    let mut ep = Endpoint::new(7);
    let a = ep.handle(Event::ReadFailed(TransportError::BrokenPipe));
    assert!(matches!(a, Action::StopReading));
    assert!(!ep.reads_enabled());
    assert!(matches!(ep.handle(Event::Read(b"late".to_vec())), Action::Nothing));
    let a = ep.handle(Event::Delivered(Message::new(b"x".to_vec(), 8)));
    assert!(matches!(a, Action::Write(ref p) if p == b"x"));
    assert!(matches!(ep.handle(Event::Drained), Action::Close));
    assert!(ep.is_terminated());
    assert!(matches!(ep.handle(Event::Delivered(Message::new(b"y".to_vec(), 8))), Action::Nothing));
}

#[test]
fn write_failure_terminates() {
    let mut ep = Endpoint::new(3);
    assert!(matches!(ep.handle(Event::WriteFailed(TransportError::ConnectionReset)), Action::Close));
    assert_eq!(ep.phase(), Phase::Terminated);
}

#[test]
fn own_message_is_not_echoed() {
    let mut ep = Endpoint::new(5);
    let a = ep.handle(Event::Read(b"ping".to_vec()));
    let m = match a {
        Action::Publish(m) => m,
        _ => panic!("expected a publish"),
    };
    assert_eq!(m.origin, 5);
    assert_eq!(m.payload, b"ping".to_vec());
    assert!(matches!(ep.handle(Event::Delivered(m)), Action::Nothing));
}

#[test]
fn lag_is_reported() {
    let mut ep = Endpoint::new(1);
    assert!(matches!(ep.handle(Event::Lagged(4)), Action::ReportLag(4)));
    assert_eq!(ep.phase(), Phase::Active);
}

#[test]
fn full_queue_drops_oldest_only_for_that_subscriber() {
    let mut bus = Bus::new(2);
    let slow = bus.subscribe();
    let fast = bus.subscribe();
    assert_eq!(bus.publish(&Message::new(vec![1], 9)), 2);
    assert!(matches!(bus.recv(fast), Received::Message(ref m) if m.payload == vec![1]));
    bus.publish(&Message::new(vec![2], 9));
    bus.publish(&Message::new(vec![3], 9));
    assert!(matches!(bus.recv(fast), Received::Message(ref m) if m.payload == vec![2]));
    assert!(matches!(bus.recv(fast), Received::Message(ref m) if m.payload == vec![3]));
    assert!(matches!(bus.recv(fast), Received::Empty));
    assert!(matches!(bus.recv(slow), Received::Lagged(1)));
    assert!(matches!(bus.recv(slow), Received::Message(ref m) if m.payload == vec![2]));
    assert!(matches!(bus.recv(slow), Received::Message(ref m) if m.payload == vec![3]));
    assert!(matches!(bus.recv(slow), Received::Empty));
}

#[test]
fn subscription_sees_only_later_messages() {
    let mut bus = Bus::new(4);
    let early = bus.subscribe();
    bus.publish(&Message::new(vec![1], 1));
    let late = bus.subscribe();
    bus.publish(&Message::new(vec![2], 1));
    assert_eq!(bus.subscriber_count(), 2);
    assert!(matches!(bus.recv(early), Received::Message(ref m) if m.payload == vec![1]));
    assert!(matches!(bus.recv(late), Received::Message(ref m) if m.payload == vec![2]));
    assert!(matches!(bus.recv(late), Received::Empty));
}

#[test]
fn unknown_subscription_is_closed() {
    let mut bus = Bus::new(1);
    let k = bus.subscribe();
    assert!(bus.unsubscribe(k));
    assert!(matches!(bus.recv(k), Received::Closed));
    assert_eq!(bus.publish(&Message::new(vec![0], 0)), 0);
    assert_eq!(bus.capacity(), 1);
}

#[test]
fn ids_are_distinct_and_increasing() {
    let mut c = UidCounter::new();
    let a = generate_uid(&mut c);
    let b = generate_uid(&mut c);
    assert_eq!(a, 1);
    assert_eq!(b, 2);
    let mut hub = Hub::new(1);
    let x = attach(&mut hub);
    let y = attach(&mut hub);
    assert_ne!(x.endpoint.id(), y.endpoint.id());
    assert_ne!(x.key, y.key);
    assert!(hub.can_attach());
}

#[test]
fn transient_errors() {
    assert!(is_transient(TransportError::TimedOut));
    assert!(is_transient(TransportError::WouldBlock));
    assert!(is_transient(TransportError::Interrupted));
    assert!(!is_transient(TransportError::BrokenPipe));
    assert!(!is_transient(TransportError::Other));
}

#[test]
fn config_checks_values() {
    let c = Config::new("/dev/ttyUSB0".to_string(), 115200, 8080).unwrap();
    assert_eq!(c.serial_path, "/dev/ttyUSB0");
    assert_eq!(c.baud_rate, 115200);
    assert_eq!(c.tcp_port, 8080);
    assert!(Config::new("/dev/x".to_string(), 9600, 65535).is_ok());
    assert!(matches!(Config::new("/dev/x".to_string(), 9599, 80), Err(ConfigError::BaudRateTooLow)));
    assert!(matches!(Config::new("/dev/x".to_string(), 9600, 65536), Err(ConfigError::PortOutOfRange)));
}
