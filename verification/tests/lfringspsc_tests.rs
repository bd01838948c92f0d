use gts_transport::error::GtsTransportError;
use gts_transport::sync::lfringspsc::{spsc_ring_pair, SpScRingData};

#[derive(Copy, Clone, Debug, Default)]
pub struct TestData {
    timestamp: u64,
    _timestamp2: u64,
    _timestamp3: u64,
    _timestamp4: u64,
}

#[derive(Copy, Clone, Debug)]
pub enum TestDataEnum {
    TestData(TestData),
}

#[test]
pub fn test_simple_with_threads() {
    let mut region: SpScRingData<TestDataEnum> = SpScRingData::new(3);
    let (mut tx1, mut rx1) = spsc_ring_pair(&region);

    let res = rx1.try_recv(&mut region);
    assert!(matches!(res, Err(GtsTransportError::WouldBlock)));
    let res = rx1.try_recv(&mut region);
    assert!(matches!(res, Err(GtsTransportError::WouldBlock)));
    let to_send1 = TestDataEnum::TestData(TestData {
        timestamp: 111,
        ..Default::default()
    });
    let to_send2 = TestDataEnum::TestData(TestData {
        timestamp: 222,
        ..Default::default()
    });
    let to_send3 = TestDataEnum::TestData(TestData {
        timestamp: 333,
        ..Default::default()
    });
    let to_send4 = TestDataEnum::TestData(TestData {
        timestamp: 444,
        ..Default::default()
    });
    tx1.send(&mut region, &to_send1).unwrap();
    let res = rx1.try_recv(&mut region);
    assert!(res.is_ok());
    assert!(matches!(res.unwrap(), TestDataEnum::TestData(td) if td.timestamp == 111));
    let res = rx1.try_recv(&mut region);
    assert!(matches!(res, Err(GtsTransportError::WouldBlock)));
    tx1.send(&mut region, &to_send2).unwrap();
    let res = rx1.try_recv(&mut region);
    assert!(res.is_ok());
    assert!(matches!(res.unwrap(), TestDataEnum::TestData(td) if td.timestamp == 222));
    let res = rx1.try_recv(&mut region);
    assert!(matches!(res, Err(GtsTransportError::WouldBlock)));

    // overflow.
    let res = tx1.send(&mut region, &to_send1);
    assert!(matches!(res, Ok(())));
    let res = tx1.send(&mut region, &to_send2);
    assert!(matches!(res, Ok(())));

    let res = tx1.send(&mut region, &to_send3);
    assert!(matches!(res, Err(GtsTransportError::WouldBlock)));

    let res = rx1.try_recv(&mut region);
    assert!(res.is_ok());
    assert!(matches!(res.unwrap(), TestDataEnum::TestData(td) if td.timestamp == 111));

    // now there is 1 free room.
    let res = tx1.send(&mut region, &to_send3);
    assert!(matches!(res, Ok(())));

    let res = tx1.send(&mut region, &to_send4);
    assert!(matches!(res, Err(GtsTransportError::WouldBlock)));

    let res = rx1.try_recv(&mut region);
    assert!(res.is_ok());
    assert!(matches!(res.unwrap(), TestDataEnum::TestData(td) if td.timestamp == 222));

    let res = tx1.send(&mut region, &to_send4);
    assert!(matches!(res, Ok(())));

    let res = rx1.try_recv(&mut region);
    assert!(res.is_ok());
    assert!(matches!(res.unwrap(), TestDataEnum::TestData(td) if td.timestamp == 333));
    let res = rx1.try_recv(&mut region);
    assert!(res.is_ok());
    assert!(matches!(res.unwrap(), TestDataEnum::TestData(td) if td.timestamp == 444));

    // no data left
    let res = rx1.try_recv(&mut region);
    assert!(matches!(res, Err(GtsTransportError::WouldBlock)));
}

#[test]
fn fifo_order_is_exact() {
    let mut region: SpScRingData<u64> = SpScRingData::new(8);
    let (mut tx, mut rx) = spsc_ring_pair(&region);

    for v in 1..=7u64 {
        tx.send(&mut region, &v).unwrap();
    }
    for v in 1..=7u64 {
        assert_eq!(rx.try_recv(&mut region).unwrap(), v);
    }
    assert!(matches!(rx.try_recv(&mut region), Err(GtsTransportError::WouldBlock)));
}

#[test]
fn capacity_is_ring_size_minus_one() {
    let mut region: SpScRingData<u64> = SpScRingData::new(4);
    let (mut tx, mut rx) = spsc_ring_pair(&region);

    // R - 1 sends succeed, the next blocks.
    tx.send(&mut region, &1).unwrap();
    tx.send(&mut region, &2).unwrap();
    tx.send(&mut region, &3).unwrap();
    assert!(matches!(tx.send(&mut region, &4), Err(GtsTransportError::WouldBlock)));

    // One receive frees exactly one slot.
    assert_eq!(rx.try_recv(&mut region).unwrap(), 1);
    tx.send(&mut region, &4).unwrap();
    assert!(matches!(tx.send(&mut region, &5), Err(GtsTransportError::WouldBlock)));

    assert_eq!(rx.try_recv(&mut region).unwrap(), 2);
    assert_eq!(rx.try_recv(&mut region).unwrap(), 3);
    assert_eq!(rx.try_recv(&mut region).unwrap(), 4);
    assert!(matches!(rx.try_recv(&mut region), Err(GtsTransportError::WouldBlock)));
}

#[test]
fn get_last_value_tracks_receives() {
    let mut region: SpScRingData<u64> = SpScRingData::new(3);
    let (mut tx, mut rx) = spsc_ring_pair(&region);

    assert!(rx.get_last_value().is_none());
    tx.send(&mut region, &10).unwrap();
    assert!(rx.get_last_value().is_none());
    assert_eq!(rx.try_recv(&mut region).unwrap(), 10);
    assert_eq!(rx.get_last_value(), Some(10));
    tx.send(&mut region, &20).unwrap();
    assert_eq!(rx.try_recv(&mut region).unwrap(), 20);
    assert_eq!(rx.get_last_value(), Some(20));
}

#[test]
fn counters_wrap_around_the_ring() {
    let mut region: SpScRingData<u64> = SpScRingData::new(3);
    let (mut tx, mut rx) = spsc_ring_pair(&region);

    // Many laps around a tiny ring keep FIFO order intact.
    for v in 0..100u64 {
        tx.send(&mut region, &v).unwrap();
        assert_eq!(rx.try_recv(&mut region).unwrap(), v);
    }
    assert!(matches!(rx.try_recv(&mut region), Err(GtsTransportError::WouldBlock)));
}
