use ud_co2s::callback::{CallbackSlot, Delivery};
use ud_co2s::device::{DeviceSlot, Intake, ReadEvent, ReaderPhase};
use ud_co2s::error::SessionError;
use ud_co2s::link::{LinkFailure, LinkRequest};
use ud_co2s::session::{close, open, register_callback};

#[derive(Debug, Clone, Copy, PartialEq, Eq)]
struct Consumer(u32);

#[derive(Debug, PartialEq, Eq)]
struct FakePort(u32);

fn request(name: &str) -> LinkRequest {
    LinkRequest::parse(name.as_bytes()).unwrap()
}

fn data(bytes: &[u8]) -> ReadEvent {
    ReadEvent::Data(bytes.to_vec())
}

fn lines(items: &[&[u8]]) -> Vec<Vec<u8>> {
    items.iter().map(|item| item.to_vec()).collect()
}

fn deliver_all(callbacks: &CallbackSlot<Consumer>, intake: Intake) -> Vec<Delivery<Consumer>> {
    let mut out = Vec::new();
    for line in intake.lines {
        if let Some(delivery) = callbacks.deliver(line) {
            out.push(delivery);
        }
    }
    out
}

#[test]
fn lines_reach_the_registered_callback_in_order() {
    let mut device: DeviceSlot<FakePort> = DeviceSlot::new();
    let mut callbacks: CallbackSlot<Consumer> = CallbackSlot::new();
    let f = Consumer(1);

    assert_eq!(open(&mut device, request("PORT1"), Ok(FakePort(1))), Ok(true));
    register_callback(&mut callbacks, f);
    let intake = device.receive(data(b"123\r\n456\r\n"));
    assert_eq!(intake.error, None);
    let delivered = deliver_all(&callbacks, intake);
    assert_eq!(
        delivered,
        vec![
            Delivery { callback: f, bytes: b"123".to_vec() },
            Delivery { callback: f, bytes: b"456".to_vec() },
        ]
    );
    assert_eq!(delivered[0].len(), 3);

    close(&mut device, &mut callbacks);
    let later = device.receive(data(b"789\r\n"));
    assert_eq!(later.lines, lines(&[]));
    assert_eq!(later.error, None);
    assert_eq!(callbacks.deliver(b"789".to_vec()), None);
    assert_eq!(deliver_all(&callbacks, later), vec![]);
}

#[test]
fn failed_activation_aborts_the_open() {
    let mut device: DeviceSlot<FakePort> = DeviceSlot::new();
    let mut callbacks: CallbackSlot<Consumer> = CallbackSlot::new();
    register_callback(&mut callbacks, Consumer(1));

    let result = open(&mut device, request("PORT1"), Err(LinkFailure::ActivationWrite));
    assert_eq!(result, Err(SessionError::ActivationWriteFailure));
    assert!(!device.is_connected());
    assert_eq!(device.phase(), ReaderPhase::NotStarted);

    let intake = device.receive(data(b"123\r\n"));
    assert_eq!(intake.lines, lines(&[]));
    assert_eq!(deliver_all(&callbacks, intake), vec![]);
}

#[test]
fn failed_open_is_reported_and_changes_nothing() {
    let mut device: DeviceSlot<FakePort> = DeviceSlot::new();
    assert_eq!(open(&mut device, request("A"), Ok(FakePort(1))), Ok(true));
    assert_eq!(device.receive(data(b"12")).lines, lines(&[]));

    let result = open(&mut device, request("B"), Err(LinkFailure::Open));
    assert_eq!(result, Err(SessionError::OpenFailure));
    assert_eq!(device.port(), Some("A"));
    assert_eq!(device.handle_mut(), Some(&mut FakePort(1)));
    assert_eq!(device.phase(), ReaderPhase::Reading);
    assert_eq!(device.receive(data(b"3\n")).lines, lines(&[b"123"]));
}

#[test]
fn second_open_replaces_the_connection() {
    let mut device: DeviceSlot<FakePort> = DeviceSlot::new();
    assert_eq!(open(&mut device, request("A"), Ok(FakePort(1))), Ok(true));
    assert_eq!(device.port(), Some("A"));
    assert_eq!(device.receive(data(b"11\r\n22")).lines, lines(&[b"11"]));

    assert_eq!(open(&mut device, request("B"), Ok(FakePort(2))), Ok(false));
    assert_eq!(device.port(), Some("B"));
    assert_eq!(device.handle_mut(), Some(&mut FakePort(2)));
    assert_eq!(device.phase(), ReaderPhase::Reading);
    assert_eq!(device.receive(data(b"33\r\n")).lines, lines(&[b"33"]));
}

#[test]
fn close_without_open_is_a_no_op() {
    let mut device: DeviceSlot<FakePort> = DeviceSlot::new();
    let mut callbacks: CallbackSlot<Consumer> = CallbackSlot::new();
    close(&mut device, &mut callbacks);
    assert!(!device.is_connected());
    assert_eq!(device.port(), None);
    assert_eq!(device.handle_mut(), None);
    assert_eq!(device.phase(), ReaderPhase::NotStarted);
    assert_eq!(callbacks.current(), None);
    close(&mut device, &mut callbacks);
    assert_eq!(device.phase(), ReaderPhase::NotStarted);
    assert_eq!(open(&mut device, request("PORT1"), Ok(FakePort(1))), Ok(true));
}

#[test]
fn close_removes_a_callback_registered_before_any_open() {
    let mut device: DeviceSlot<FakePort> = DeviceSlot::new();
    let mut callbacks: CallbackSlot<Consumer> = CallbackSlot::new();
    register_callback(&mut callbacks, Consumer(5));
    assert_eq!(callbacks.current(), Some(Consumer(5)));
    close(&mut device, &mut callbacks);
    assert_eq!(callbacks.current(), None);
}

#[test]
fn only_the_latest_callback_receives() {
    let mut callbacks: CallbackSlot<Consumer> = CallbackSlot::new();
    assert_eq!(callbacks.deliver(b"0".to_vec()), None);
    register_callback(&mut callbacks, Consumer(1));
    assert_eq!(
        callbacks.deliver(b"1".to_vec()),
        Some(Delivery { callback: Consumer(1), bytes: b"1".to_vec() })
    );
    register_callback(&mut callbacks, Consumer(2));
    assert_eq!(callbacks.current(), Some(Consumer(2)));
    for line in lines(&[b"2", b"3", b""]) {
        let delivery = callbacks.deliver(line.clone()).unwrap();
        assert_eq!(delivery.callback, Consumer(2));
        assert_eq!(delivery.len(), line.len());
        assert_eq!(delivery.bytes, line);
    }
    callbacks.clear();
    assert_eq!(callbacks.deliver(b"4".to_vec()), None);
}

#[test]
fn callback_may_be_registered_before_open() {
    let mut device: DeviceSlot<FakePort> = DeviceSlot::new();
    let mut callbacks: CallbackSlot<Consumer> = CallbackSlot::new();
    register_callback(&mut callbacks, Consumer(9));
    assert_eq!(open(&mut device, request("PORT1"), Ok(FakePort(1))), Ok(true));
    let intake = device.receive(data(b"400\r\n"));
    assert_eq!(
        deliver_all(&callbacks, intake),
        vec![Delivery { callback: Consumer(9), bytes: b"400".to_vec() }]
    );
}

#[test]
fn lines_without_a_callback_are_not_kept() {
    let mut device: DeviceSlot<FakePort> = DeviceSlot::new();
    let mut callbacks: CallbackSlot<Consumer> = CallbackSlot::new();
    assert_eq!(open(&mut device, request("PORT1"), Ok(FakePort(1))), Ok(true));
    let early = device.receive(data(b"1\r\n"));
    assert_eq!(early.lines, lines(&[b"1"]));
    assert_eq!(deliver_all(&callbacks, early), vec![]);
    register_callback(&mut callbacks, Consumer(3));
    let late = device.receive(data(b"2\r\n"));
    assert_eq!(
        deliver_all(&callbacks, late),
        vec![Delivery { callback: Consumer(3), bytes: b"2".to_vec() }]
    );
}

#[test]
fn reader_starts_once_over_many_cycles() {
    let mut device: DeviceSlot<FakePort> = DeviceSlot::new();
    let mut callbacks: CallbackSlot<Consumer> = CallbackSlot::new();
    let mut starts = 0;
    for round in 0..10u32 {
        if open(&mut device, request("PORT1"), Ok(FakePort(round))) == Ok(true) {
            starts += 1;
        }
        assert_eq!(device.phase(), ReaderPhase::Reading);
        if round % 2 == 0 {
            close(&mut device, &mut callbacks);
            assert_eq!(device.phase(), ReaderPhase::Idle);
        }
        let _ = open(&mut device, request("PORT2"), Err(LinkFailure::Open));
    }
    assert_eq!(starts, 1);
}

#[test]
fn reader_goes_idle_on_close_and_resumes_on_open() {
    let mut device: DeviceSlot<FakePort> = DeviceSlot::new();
    let mut callbacks: CallbackSlot<Consumer> = CallbackSlot::new();
    assert_eq!(device.phase(), ReaderPhase::NotStarted);
    assert_eq!(open(&mut device, request("A"), Ok(FakePort(1))), Ok(true));
    assert_eq!(device.phase(), ReaderPhase::Reading);
    assert_eq!(device.receive(data(b"par")).lines, lines(&[]));
    close(&mut device, &mut callbacks);
    assert_eq!(device.phase(), ReaderPhase::Idle);
    assert_eq!(device.receive(data(b"tial\n")).lines, lines(&[]));
    assert_eq!(open(&mut device, request("A"), Ok(FakePort(2))), Ok(false));
    assert_eq!(device.phase(), ReaderPhase::Reading);
    assert_eq!(device.receive(data(b"tial\n")).lines, lines(&[b"tial"]));
}

#[test]
fn handle_can_be_used_in_place() {
    let mut device: DeviceSlot<FakePort> = DeviceSlot::new();
    assert_eq!(open(&mut device, request("A"), Ok(FakePort(1))), Ok(true));
    assert_eq!(device.receive(data(b"4")).lines, lines(&[]));
    if let Some(port) = device.handle_mut() {
        port.0 += 41;
    }
    assert_eq!(device.handle_mut(), Some(&mut FakePort(42)));
    assert_eq!(device.port(), Some("A"));
    assert_eq!(device.phase(), ReaderPhase::Reading);
    assert_eq!(device.receive(data(b"2\n")).lines, lines(&[b"42"]));
}
