use umsbb::buffer::{auto_segment_count, SegmentedBuffer, SEGMENT_ITEM_CAPACITY};
use umsbb::envelope::{LanguageType, UniversalData};
use umsbb::error::UMSBBError;

fn env(bytes: &[u8], type_id: u32) -> UniversalData {
    UniversalData::new(bytes.to_vec(), type_id, LanguageType::Rust)
}

fn read_bytes(b: &mut SegmentedBuffer) -> Option<Vec<u8>> {
    b.read().unwrap().map(|e| e.data)
}

#[test]
fn three_messages_in_four_segments_come_back_in_order() {
    let mut b = SegmentedBuffer::new(1024 * 1024, 4, 1).unwrap();
    b.write(env(b"message-01", 1)).unwrap();
    b.write(env(b"message-02", 2)).unwrap();
    b.write(env(b"message-03", 3)).unwrap();
    assert_eq!(read_bytes(&mut b), Some(b"message-01".to_vec()));
    assert_eq!(read_bytes(&mut b), Some(b"message-02".to_vec()));
    assert_eq!(read_bytes(&mut b), Some(b"message-03".to_vec()));
    assert_eq!(b.stats().unwrap().pending_messages, 0);
    assert_eq!(b.stats().unwrap().total_messages, 3);
    assert_eq!(b.stats().unwrap().total_bytes, 30);
    assert_eq!(b.stats().unwrap().active_segments, 4);
}

#[test]
fn round_trip_keeps_bytes_and_tags() {
    let mut b = SegmentedBuffer::new(1024 * 1024, 2, 1).unwrap();
    let payload: Vec<u8> = (0..65536u32).map(|i| (i % 251) as u8).collect();
    b.write(UniversalData::new(payload.clone(), 42, LanguageType::Python)).unwrap();
    let e = b.read().unwrap().unwrap();
    assert_eq!(e.data, payload);
    assert_eq!(e.type_id, 42);
    assert_eq!(e.source_lang, LanguageType::Python);
    assert!(b.read().unwrap().is_none());
}

#[test]
fn creation_parameters_are_checked() {
    assert_eq!(SegmentedBuffer::new(0, 4, 1).err(), Some(UMSBBError::InvalidParams));
    assert_eq!(SegmentedBuffer::new(1024, 65, 1).err(), Some(UMSBBError::InvalidParams));
    assert_eq!(SegmentedBuffer::new(1024, 64, 1).unwrap().stats().unwrap().active_segments, 64);
}

#[test]
fn automatic_segment_count() {
    assert_eq!(auto_segment_count(1024 * 1024, 4), 4);
    assert_eq!(auto_segment_count(2 * 65536, 8), 2);
    assert_eq!(auto_segment_count(100, 8), 1);
    assert_eq!(auto_segment_count(200 * 1024 * 1024, 1), 64);
    assert_eq!(auto_segment_count(3 * 1024 * 1024 + 1, 0), 4);
    let b = SegmentedBuffer::new(1024 * 1024, 0, 4).unwrap();
    assert_eq!(b.stats().unwrap().active_segments, 4);
}

#[test]
fn full_buffer_refuses_then_read_frees_room() {
    let mut b = SegmentedBuffer::new(10, 2, 1).unwrap();
    b.write(env(&[1; 6], 0)).unwrap();
    b.write(env(&[2; 6], 0)).unwrap();
    assert_eq!(b.write(env(&[3; 6], 0)), Err(UMSBBError::BufferFull));
    assert_eq!(b.stats().unwrap().total_messages, 2);
    assert_eq!(read_bytes(&mut b), Some(vec![1; 6]));
    assert_eq!(b.write(env(&[3; 6], 0)), Ok(()));
    assert_eq!(b.write(env(&[4; 5], 0)), Err(UMSBBError::BufferFull));
    assert_eq!(b.write(env(&[4; 4], 0)), Ok(()));
}

#[test]
fn item_capacity_is_enforced() {
    let mut b = SegmentedBuffer::new(1024 * 1024, 1, 1).unwrap();
    for i in 0..SEGMENT_ITEM_CAPACITY {
        assert_eq!(b.write(env(&[i as u8], 0)), Ok(()));
    }
    assert_eq!(b.message_capacity(), SEGMENT_ITEM_CAPACITY as u64);
    assert_eq!(b.write(env(&[0], 0)), Err(UMSBBError::BufferFull));
    assert_eq!(read_bytes(&mut b), Some(vec![0]));
    assert_eq!(b.write(env(&[0], 0)), Ok(()));
}

#[test]
fn oversized_envelope_is_refused() {
    let mut b = SegmentedBuffer::new(1024 * 1024, 1, 1).unwrap();
    assert_eq!(b.write(env(&vec![0; 65537], 0)), Err(UMSBBError::InvalidParams));
    assert_eq!(b.pending_count(), 0);
}

#[test]
fn fifo_within_one_segment() {
    let mut b = SegmentedBuffer::new(1024, 1, 1).unwrap();
    for i in 0..5u8 {
        b.write(env(&[i], 0)).unwrap();
    }
    for i in 0..5u8 {
        assert_eq!(read_bytes(&mut b), Some(vec![i]));
    }
    assert_eq!(read_bytes(&mut b), None);
}

#[test]
fn writes_go_to_least_loaded_segment_and_reads_rotate() {
    let mut b = SegmentedBuffer::new(1024, 2, 1).unwrap();
    b.write(env(b"a", 0)).unwrap();
    assert_eq!(read_bytes(&mut b), Some(b"a".to_vec()));
    // both segments are empty again: the tie goes to the first one
    b.write(env(b"b", 0)).unwrap();
    b.write(env(b"c", 0)).unwrap();
    // the read cursor stands after the first segment now
    assert_eq!(read_bytes(&mut b), Some(b"c".to_vec()));
    assert_eq!(read_bytes(&mut b), Some(b"b".to_vec()));
}

#[test]
fn destroy_reports_lost_messages_and_invalidates() {
    let mut b = SegmentedBuffer::new(1024, 2, 1).unwrap();
    b.write(env(b"x", 0)).unwrap();
    b.write(env(b"y", 0)).unwrap();
    b.write(env(b"z", 0)).unwrap();
    assert_eq!(b.destroy(), Ok(3));
    assert_eq!(b.destroy(), Err(UMSBBError::InvalidHandle));
    assert_eq!(b.write(env(b"w", 0)), Err(UMSBBError::InvalidHandle));
    assert_eq!(b.read().err(), Some(UMSBBError::InvalidHandle));
    assert_eq!(b.stats().err(), Some(UMSBBError::InvalidHandle));
    assert_eq!(b.pending_count(), 0);
}
