use gts_transport::error::GtsTransportError;
use gts_transport::logbackend::dualthread::{
    drain_ring, BatchWriter, WRITER_FLUSH_COUNT, WRITER_FLUSH_INTERVAL_NS,
};
use gts_transport::sync::lfringspsc::{spsc_ring_pair, SpScRingData};

#[test]
fn drain_empties_the_ring_in_order() {
    let mut region: SpScRingData<u64> = SpScRingData::new(5);
    let (mut tx, mut rx) = spsc_ring_pair(&region);
    tx.send(&mut region, &1).unwrap();
    tx.send(&mut region, &2).unwrap();
    tx.send(&mut region, &3).unwrap();

    let mut out: Vec<u64> = Vec::new();
    drain_ring(&mut rx, &mut region, &mut out);
    assert_eq!(out, vec![1, 2, 3]);
    assert!(matches!(rx.try_recv(&mut region), Err(GtsTransportError::WouldBlock)));

    // A later sweep appends to the same buffer.
    tx.send(&mut region, &4).unwrap();
    drain_ring(&mut rx, &mut region, &mut out);
    assert_eq!(out, vec![1, 2, 3, 4]);
}

#[test]
fn writer_keeps_gathering_below_thresholds() {
    let mut writer: BatchWriter<u64> = BatchWriter::new(1_000);
    let mut incoming = vec![7, 8];
    let batch = writer.offer(&mut incoming, 1_000);
    assert!(batch.is_none());
    assert!(incoming.is_empty());

    // Still below both thresholds: nothing flushes, records are kept.
    let mut incoming = vec![9];
    let batch = writer.offer(&mut incoming, 1_000 + WRITER_FLUSH_INTERVAL_NS);
    assert!(batch.is_none());
}

#[test]
fn writer_flushes_on_count() {
    let mut writer: BatchWriter<u64> = BatchWriter::new(0);
    let mut incoming: Vec<u64> = (0..WRITER_FLUSH_COUNT as u64).collect();
    let batch = writer.offer(&mut incoming, 0);
    let batch = batch.expect("a full buffer must flush");
    assert_eq!(batch.len(), WRITER_FLUSH_COUNT);
    assert_eq!(batch[0], 0);
    assert_eq!(batch[WRITER_FLUSH_COUNT - 1], WRITER_FLUSH_COUNT as u64 - 1);

    // The buffer is empty again: the next round gathers afresh.
    let mut incoming = vec![1];
    assert!(writer.offer(&mut incoming, 0).is_none());
}

#[test]
fn writer_flushes_on_elapsed_time() {
    let mut writer: BatchWriter<u64> = BatchWriter::new(1_000);
    let mut incoming = vec![5];
    let batch = writer.offer(&mut incoming, 1_001 + WRITER_FLUSH_INTERVAL_NS);
    assert_eq!(batch, Some(vec![5]));

    // The flush re-anchored the timer at the flush time.
    let mut incoming = vec![6];
    assert!(writer.offer(&mut incoming, 1_002 + WRITER_FLUSH_INTERVAL_NS).is_none());
}

#[test]
fn writer_never_flushes_an_empty_buffer() {
    let mut writer: BatchWriter<u64> = BatchWriter::new(0);
    let mut incoming: Vec<u64> = Vec::new();
    assert!(writer.offer(&mut incoming, 10 * WRITER_FLUSH_INTERVAL_NS).is_none());
}

struct RingBackend {
    tx: gts_transport::sync::lfringspsc::SpScRingSender,
    region: SpScRingData<gts_transport::logclient::LogEventTs<u64>>,
}

impl gts_transport::logbackend::LogBackend<gts_transport::logclient::LogEventTs<u64>>
    for RingBackend
{
    fn log(
        &mut self,
        event: gts_transport::logclient::LogEventTs<u64>,
    ) -> Result<(), gts_transport::error::GtsLoggerError> {
        match self.tx.send(&mut self.region, &event) {
            Ok(()) => Ok(()),
            Err(e) => Err(gts_transport::error::GtsLoggerError::TransportWouldBlock(e)),
        }
    }
}

#[test]
fn log_path_end_to_end() {
    // The whole logging path driven by hand: client stamps, the ring
    // carries, the drain sweeps, the writer flushes a batch to the sink.
    let region: SpScRingData<gts_transport::logclient::LogEventTs<u64>> = SpScRingData::new(8);
    let (tx, mut rx) = spsc_ring_pair(&region);
    let mut client =
        gts_transport::logclient::LogClient::<_, u64>::new(RingBackend { tx, region });

    client.log_with_ts(1_000, 1).unwrap();
    client.log_same(1).unwrap();
    client.log_with_ts(2_000, 2).unwrap();

    let backend = client.backend_mut();
    let mut queued: Vec<gts_transport::logclient::LogEventTs<u64>> = Vec::new();
    drain_ring(&mut rx, &mut backend.region, &mut queued);
    assert_eq!(queued.len(), 3);

    let mut writer = BatchWriter::new(0);
    let sink_batch = writer
        .offer(&mut queued, WRITER_FLUSH_INTERVAL_NS + 1)
        .expect("enough time has passed to flush");
    let pairs: Vec<(u64, u32)> = sink_batch.iter().map(|ev| (ev.timestamp, ev.seqid)).collect();
    assert_eq!(pairs, vec![(1_000, 0), (1_000, 1), (2_000, 0)]);
    assert!(pairs[0] < pairs[1] && pairs[1] < pairs[2]);
    assert_eq!(sink_batch[0].data, 1);
    assert_eq!(sink_batch[1].data, 1);
    assert_eq!(sink_batch[2].data, 2);
}
