use divans::interface::CoderResult;
use divans::reader::{
    DivansBrotliHybridCompressorReader, DivansDecompressorReader,
    DivansExperimentalCompressorReader, GenReader, ReadEvent, ReadVerdict,
};

fn reader(len: usize, offset: usize, end: usize) -> GenReader {
    let mut r = GenReader::new((0..len).map(|i| i as u8).collect(), true);
    r.input_offset = offset;
    r.input_len = end;
    r
}

#[test]
fn new_reader_is_empty() {
    let r = GenReader::new(vec![0; 10], true);
    assert_eq!((r.input_offset, r.input_len, r.input_eof, r.has_flushed, r.read_error), (0, 0, false, false, false));
    let r = GenReader::new(vec![0; 10], false);
    assert!(r.has_flushed);
    assert_eq!(r.input_buffer.len(), 10);
}

#[test]
fn default_buffer_size() {
    assert_eq!(DivansDecompressorReader::new(0).0.input_buffer.len(), 4096);
    assert_eq!(DivansDecompressorReader::new(17).0.input_buffer, vec![0u8; 17]);
    assert_eq!(DivansExperimentalCompressorReader::new(0).0.input_buffer.len(), 4096);
    assert_eq!(DivansBrotliHybridCompressorReader::new(1).0.input_buffer.len(), 1);
    assert!(DivansDecompressorReader::new(0).0.has_flushed);
    assert!(!DivansExperimentalCompressorReader::new(0).0.has_flushed);
    assert!(!DivansBrotliHybridCompressorReader::new(0).0.has_flushed);
}

#[test]
fn cursor_at_the_end_goes_back_to_the_start() {
    let mut r = reader(1000, 1000, 1000);
    r.copy_to_front();
    assert_eq!((r.input_offset, r.input_len), (0, 0));
    assert_eq!(r.input_buffer, (0..1000).map(|i| i as u8).collect::<Vec<u8>>());
}

#[test]
fn unread_bytes_move_to_the_front_near_the_end() {
    let mut r = reader(1000, 800, 900);
    r.copy_to_front();
    assert_eq!((r.input_offset, r.input_len), (0, 100));
    let expected: Vec<u8> = (800..900).map(|i| i as u8).collect();
    assert_eq!(r.input_buffer[..100], expected[..]);
    let untouched: Vec<u8> = (100..1000).map(|i| i as u8).collect();
    assert_eq!(r.input_buffer[100..], untouched[..]);
}

#[test]
fn unread_bytes_stay_where_room_is_left_or_they_are_many() {
    // 256 bytes of room behind the cursor
    let mut r = reader(1000, 744, 800);
    r.copy_to_front();
    assert_eq!((r.input_offset, r.input_len), (744, 800));
    // one byte less room
    let mut r = reader(1000, 745, 800);
    r.copy_to_front();
    assert_eq!((r.input_offset, r.input_len), (0, 55));
    // as many unread bytes as bytes before them
    let mut r = reader(300, 150, 300);
    r.copy_to_front();
    assert_eq!((r.input_offset, r.input_len), (150, 300));
    let mut r = reader(300, 151, 300);
    r.copy_to_front();
    assert_eq!((r.input_offset, r.input_len), (0, 149));
}

#[test]
fn rounds_go_on_until_something_was_put_out() {
    let mut r = reader(10, 0, 0);
    assert!(r.should_continue(0, false));
    assert!(r.should_continue(0, true));
    assert!(!r.should_continue(1, false));
    r.input_eof = true;
    assert!(r.should_continue(0, false));
    assert!(!r.should_continue(0, true));
}

#[test]
fn what_a_read_gave() {
    let mut r = reader(10, 2, 4);
    assert!(r.wants_input());
    assert_eq!(r.avail_in(), 2);
    let mut needs_input = true;
    assert!(!r.filled(ReadEvent::Interrupted, &mut needs_input));
    assert_eq!((r.input_len, r.input_eof, needs_input), (4, false, true));
    assert!(r.filled(ReadEvent::Data(6), &mut needs_input));
    assert_eq!((r.input_len, r.input_eof, needs_input), (10, false, false));
    assert!(!r.wants_input());
    needs_input = true;
    assert!(r.filled(ReadEvent::Data(0), &mut needs_input));
    assert_eq!((r.input_len, r.input_eof, r.read_error, needs_input), (10, true, false, true));
    let mut r = reader(10, 2, 4);
    assert!(r.filled(ReadEvent::Failed, &mut needs_input));
    assert_eq!((r.input_len, r.input_eof, r.read_error), (4, true, true));
    assert!(!r.wants_input());
}

#[test]
fn flush_when_nothing_is_unread() {
    let mut r = reader(10, 4, 4);
    assert!(r.must_close());
    assert!(r.has_flushed);
    let mut r = reader(10, 3, 4);
    assert!(!r.must_close());
    assert!(!r.has_flushed);
}

#[test]
fn verdicts() {
    let mut r = reader(1000, 0, 500);
    assert_eq!(r.processed(200, CoderResult::NeedsMoreOutput, false), ReadVerdict::Continue { needs_input: false });
    assert_eq!((r.input_offset, r.input_len), (200, 500));
    assert_eq!(r.processed(500, CoderResult::NeedsMoreInput, false), ReadVerdict::Continue { needs_input: true });
    assert_eq!((r.input_offset, r.input_len), (500, 500));
    let mut r = reader(1000, 0, 500);
    assert_eq!(r.processed(100, CoderResult::Failure, false), ReadVerdict::InvalidData);
    let mut r = reader(1000, 0, 500);
    r.read_error = true;
    r.input_eof = true;
    assert_eq!(r.processed(100, CoderResult::Success, false), ReadVerdict::Continue { needs_input: false });
    assert_eq!(r.processed(500, CoderResult::Failure, false), ReadVerdict::ReadError);
    assert!(!r.read_error);
    let mut r = reader(1000, 900, 1000);
    r.input_eof = true;
    assert_eq!(r.processed(1000, CoderResult::Success, false), ReadVerdict::Continue { needs_input: true });
    assert_eq!((r.input_offset, r.input_len), (0, 0));
    r.has_flushed = true;
    assert_eq!(r.processed(0, CoderResult::Success, true), ReadVerdict::Finished);
}
