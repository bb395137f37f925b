use tick_shm::error::ShmError;
use tick_shm::layout::{
    symbol_position, SegmentReader, ShmLayout, MAX_SYMBOLS, NO_SLOT, SHM_MAGIC, SYMBOL_ID_BASE,
};
use tick_shm::slot::{judge_sample, SampleVerdict, SnapshotSlot};
use tick_shm::tick::TickRecord;

fn tick_with_symbol(text: &[u8], id: u64) -> TickRecord {
    let mut t = TickRecord::zeroed();
    t.symbol[..text.len()].copy_from_slice(text);
    t.symbol_id = id;
    t
}

#[test]
fn decodes_symbol_with_trailing_nuls() {
    let t = tick_with_symbol(b"ABC", 1);
    assert_eq!(t.get_symbol(), "ABC");
    assert_eq!(t.symbol_bytes(), b"ABC".to_vec());
}

#[test]
fn decodes_full_buffer_without_padding() {
    let t = tick_with_symbol(&[b'Z'; 32], 1);
    assert_eq!(t.get_symbol(), "Z".repeat(32));
}

#[test]
fn decodes_empty_buffer_to_empty_text() {
    let t = TickRecord::zeroed();
    assert_eq!(t.get_symbol(), "");
    assert!(t.symbol_bytes().is_empty());
}

#[test]
fn replaces_invalid_utf8() {
    let t = tick_with_symbol(&[0xFF, b'A'], 1);
    assert_eq!(t.get_symbol(), "\u{FFFD}A");
}

#[test]
fn keeps_inner_and_leading_nuls() {
    let t = tick_with_symbol(&[0, b'A', 0, b'B'], 1);
    assert_eq!(t.get_symbol(), "\0A\0B");
}

#[test]
fn decodes_multibyte_text() {
    let t = tick_with_symbol("IF2406é".as_bytes(), 1);
    assert_eq!(t.get_symbol(), "IF2406é");
}

#[test]
fn positions_fold_into_index_range() {
    assert_eq!(symbol_position(SYMBOL_ID_BASE), 0);
    assert_eq!(symbol_position(10000001), 1);
    assert_eq!(symbol_position(SYMBOL_ID_BASE + 65536), 0);
    assert_eq!(symbol_position(SYMBOL_ID_BASE - 1), 65535);
    assert_eq!(symbol_position(0), ((0u64.wrapping_sub(SYMBOL_ID_BASE)) % 65536) as usize);
}

#[test]
fn fresh_segment_is_empty_and_valid() {
    let l = ShmLayout::new();
    assert_eq!(l.magic, SHM_MAGIC);
    assert_eq!(l.slot_count, 0);
    assert_eq!(l.symbol_index.len(), 65536);
    assert!(l.symbol_index.iter().all(|e| *e == NO_SLOT));
    assert_eq!(l.slots.len(), MAX_SYMBOLS);
    assert!(l.slots.iter().all(|s| s.seq == 0));
    assert_eq!(l.validate(), Ok(()));
    assert_eq!(l.lookup(10000001), None);
}

#[test]
fn end_to_end_allocation_scenario() {
    let mut l = ShmLayout::new();
    assert_eq!(l.validate(), Ok(()));
    assert_eq!(l.allocate_slot(10000001), Ok(0));
    assert_eq!(l.allocate_slot(10000001), Ok(0));
    assert_eq!(l.slot_count, 1);
    let mut last = 0usize;
    for k in 1..MAX_SYMBOLS as u64 {
        let p = l.allocate_slot(10000001 + k).unwrap();
        assert!(p > last);
        last = p;
    }
    assert_eq!(last, MAX_SYMBOLS - 1);
    assert_eq!(l.slot_count, MAX_SYMBOLS as i32);
    assert_eq!(l.allocate_slot(10000001 + MAX_SYMBOLS as u64), Err(ShmError::SegmentFull));
    assert_eq!(l.slot_count, MAX_SYMBOLS as i32);
    assert_eq!(l.lookup(10000001 + MAX_SYMBOLS as u64), None);
    assert_eq!(l.allocate_slot(10000001 + 5), Ok(5));
}

#[test]
fn repeated_allocation_returns_same_slot() {
    let mut l = ShmLayout::new();
    assert_eq!(l.allocate_slot(10000007), Ok(0));
    assert_eq!(l.allocate_slot(10000003), Ok(1));
    for _ in 0..5 {
        assert_eq!(l.allocate_slot(10000007), Ok(0));
        assert_eq!(l.allocate_slot(10000003), Ok(1));
    }
    assert_eq!(l.slot_count, 2);
    assert_eq!(l.lookup(10000003), Some(1));
}

#[test]
fn colliding_identifiers_share_a_position() {
    let mut l = ShmLayout::new();
    assert_eq!(l.allocate_slot(10000001), Ok(0));
    assert_eq!(l.allocate_slot(10000001 + 65536), Ok(0));
    assert_eq!(l.slot_count, 1);
}

#[test]
fn wrong_marker_is_refused() {
    let mut l = ShmLayout::new();
    l.magic = SHM_MAGIC ^ 1;
    assert_eq!(l.validate(), Err(ShmError::CorruptSegment));
    assert!(matches!(SegmentReader::attach(&l), Err(ShmError::CorruptSegment)));
    l.magic = 0;
    assert!(matches!(SegmentReader::attach(&l), Err(ShmError::CorruptSegment)));
}

#[test]
fn reader_sees_published_tick() {
    let mut l = ShmLayout::new();
    let t = tick_with_symbol(b"rb2410", 10000042);
    assert_eq!(l.publish_symbol(10000042, t), Ok(0));
    assert_eq!(l.slots[0].seq, 2);
    let r = SegmentReader::attach(&l).ok().unwrap();
    assert_eq!(r.lookup(10000042), Some(0));
    let got = r.read_symbol(10000042, 3).unwrap();
    assert_eq!(got.get_symbol(), "rb2410");
    assert_eq!(got.symbol_id, 10000042);
    assert_eq!(r.read_symbol(10000043, 3).err(), Some(ShmError::UnknownSymbol));
}

#[test]
fn reader_gives_up_on_slot_mid_write() {
    let mut l = ShmLayout::new();
    assert_eq!(l.allocate_slot(10000009), Ok(0));
    l.slots[0].begin_write();
    assert_eq!(l.read_symbol(10000009, 4).err(), Some(ShmError::TransientUnavailable));
    l.slots[0].end_write();
    assert!(l.read_symbol(10000009, 4).is_ok());
    assert_eq!(l.read_symbol(10000009, 0).err(), Some(ShmError::TransientUnavailable));
}

#[test]
fn publish_on_full_segment_changes_nothing() {
    let mut l = ShmLayout::new();
    for k in 0..MAX_SYMBOLS as u64 {
        assert_eq!(l.allocate_slot(SYMBOL_ID_BASE + k), Ok(k as usize));
    }
    let t = tick_with_symbol(b"X", 1);
    assert_eq!(l.publish_symbol(SYMBOL_ID_BASE + 9999, t), Err(ShmError::SegmentFull));
    assert!(l.slots.iter().all(|s| s.seq == 0));
}

#[test]
fn counter_parity_through_a_burst() {
    let mut s = SnapshotSlot::empty();
    assert_eq!(s.seq % 2, 0);
    s.begin_write();
    assert_eq!(s.seq, 1);
    s.store(tick_with_symbol(b"AU", 7));
    assert_eq!(s.seq, 1);
    s.end_write();
    assert_eq!(s.seq, 2);
    assert_eq!(s.tick.symbol_id, 7);
    s.publish(tick_with_symbol(b"AG", 8));
    assert_eq!(s.seq, 4);
    assert_eq!(s.tick.get_symbol(), "AG");
}

#[test]
fn counter_wraps_to_even() {
    let mut s = SnapshotSlot::empty();
    s.seq = u32::MAX - 1;
    s.publish(tick_with_symbol(b"CU", 3));
    assert_eq!(s.seq, 0);
}

#[test]
fn sample_verdicts() {
    assert_eq!(judge_sample(4, 4, 0, 3), SampleVerdict::Accept);
    assert_eq!(judge_sample(5, 5, 0, 3), SampleVerdict::Retry);
    assert_eq!(judge_sample(4, 6, 1, 3), SampleVerdict::Retry);
    assert_eq!(judge_sample(4, 6, 2, 3), SampleVerdict::Unavailable);
    assert_eq!(judge_sample(3, 3, 0, 0), SampleVerdict::Unavailable);
    assert_eq!(judge_sample(0, 0, 0, 0), SampleVerdict::Accept);
}

#[test]
fn interleaved_write_makes_reader_retry() {
    let mut s = SnapshotSlot::empty();
    s.publish(tick_with_symbol(b"OLD", 1));
    // The reader takes its first counter read, then the writer runs a burst
    // while the reader copies.
    let s1 = s.seq;
    s.begin_write();
    let torn_first_half = s.tick.symbol_id;
    s.store(tick_with_symbol(b"NEW", 2));
    s.end_write();
    let torn_second_half = s.tick.get_symbol();
    let s2 = s.seq;
    assert_eq!((torn_first_half, torn_second_half.as_str()), (1, "NEW"));
    assert_eq!(judge_sample(s1, s2, 0, 5), SampleVerdict::Retry);
    // A quiet retry yields the new record whole.
    let s1 = s.seq;
    let copy = s.tick;
    let s2 = s.seq;
    assert_eq!(judge_sample(s1, s2, 1, 5), SampleVerdict::Accept);
    assert_eq!((copy.symbol_id, copy.get_symbol().as_str()), (2, "NEW"));
}

#[test]
fn prices_travel_as_bit_patterns() {
    let mut t = tick_with_symbol(b"SC", 10000011);
    t.last_price = 523.25f64.to_bits();
    t.bid_price[0] = 523.0f64.to_bits();
    let mut l = ShmLayout::new();
    assert_eq!(l.publish_symbol(10000011, t), Ok(0));
    let got = l.read_symbol(10000011, 1).unwrap();
    assert_eq!(f64::from_bits(got.last_price), 523.25);
    assert_eq!(f64::from_bits(got.bid_price[0]), 523.0);
}
