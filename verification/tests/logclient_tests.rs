use arrayvec::ArrayString;
use gts_transport::logbackend::mock::MockLogBacked;
use gts_transport::logclient::{LogClient, LogEventTs};

#[derive(Debug, Copy, Clone, PartialEq)]
pub struct LogOneStruct {
    some_num: u64,
    some_other_num: u64,
    some_string: ArrayString<16>,
}

#[derive(Debug, Copy, Clone, PartialEq)]
pub struct LogTwoStruct {
    some_string: ArrayString<16>,
}

#[derive(Debug, Copy, Clone, PartialEq)]
pub enum LogEvent {
    LogOneOne(LogOneStruct),
    LogTwo(LogTwoStruct),
}

#[test]
fn lib_create_logger() {
    let event = LogEvent::LogOneOne(LogOneStruct {
        some_num: 5,
        some_other_num: 7,
        some_string: ArrayString::from("333").unwrap(),
    });

    let copy_event = event;

    let mut log_client = LogClient::<_, LogEvent>::new(MockLogBacked::new());

    log_client.log(event).unwrap();

    let rr = log_client.backend_mut().pop_front();
    assert!(matches!(rr, Some(ev) if ev.data == copy_event));

    let rr = log_client.backend_mut().pop_front();
    assert!(rr.is_none());

    log_client.log(event).unwrap();
    let rr = log_client.backend_mut().pop_front();
    assert!(matches!(rr, Some(ev) if ev.data == copy_event));

    let rr = log_client.backend_mut().pop_front();
    assert!(rr.is_none());
}

#[test]
fn mock_create_logger() {
    let event = LogEvent::LogOneOne(LogOneStruct {
        some_num: 5,
        some_other_num: 7,
        some_string: ArrayString::from("333").unwrap(),
    });

    let copy_event = event;

    let mut log_client = LogClient::<_, LogEvent>::new(MockLogBacked::new());

    log_client.log(event).unwrap();

    let rr = log_client.backend_mut().pop_front();
    assert!(matches!(rr, Some(ev) if ev.data == copy_event));

    let rr = log_client.backend_mut().pop_front();
    assert!(rr.is_none());

    log_client.log(event).unwrap();
    let rr = log_client.backend_mut().pop_front();
    assert!(matches!(rr, Some(ev) if ev.data == copy_event));

    let rr = log_client.backend_mut().pop_front();
    assert!(rr.is_none());
}

#[test]
fn log_event_ts_new_sets_fields() {
    let ev = LogEventTs::new(42, 7, 11u64);
    assert_eq!(ev.timestamp, 42);
    assert_eq!(ev.seqid, 7);
    assert_eq!(ev.data, 11);
}

#[test]
fn pairs_increase_within_one_timestamp() {
    let mut client = LogClient::<_, u64>::new(MockLogBacked::new());
    client.log_with_ts(100, 1).unwrap();
    client.log_same(2).unwrap();
    client.log_same(3).unwrap();
    client.log_with_ts(200, 4).unwrap();

    let backend = client.backend_mut();
    let pairs: Vec<(u64, u32)> = std::iter::from_fn(|| backend.pop_front())
        .map(|ev| (ev.timestamp, ev.seqid))
        .collect();
    assert_eq!(pairs, vec![(100, 0), (100, 1), (100, 2), (200, 0)]);
    for w in pairs.windows(2) {
        assert!(w[0] < w[1]);
    }
}

#[test]
fn clock_path_emits_ordered_pairs() {
    let mut client = LogClient::<_, u64>::new(MockLogBacked::new());
    client.log(1).unwrap();
    client.log_same(2).unwrap();
    client.log(3).unwrap();

    let backend = client.backend_mut();
    let first = backend.pop_front().unwrap();
    let second = backend.pop_front().unwrap();
    let third = backend.pop_front().unwrap();
    assert!(backend.pop_front().is_none());

    assert_eq!(first.seqid, 0);
    assert_eq!(second.timestamp, first.timestamp);
    assert_eq!(second.seqid, 1);
    assert_eq!(third.seqid, 0);
    // The clock is monotone, so a fresh read never goes backwards.
    assert!(third.timestamp >= first.timestamp);
    assert_eq!(first.data, 1);
    assert_eq!(second.data, 2);
    assert_eq!(third.data, 3);
}

#[test]
fn log_same_before_any_log_steps_from_zero() {
    let mut client = LogClient::<_, u64>::new(MockLogBacked::new());
    client.log_same(9).unwrap();
    let ev = client.backend_mut().pop_front().unwrap();
    assert_eq!((ev.timestamp, ev.seqid), (0, 1));
}
