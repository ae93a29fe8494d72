use panel_server::server::{Buf, CombinedStream, CombinedStreamOutput};
use panel_server::config::Config;

#[test]
fn cursors_and_compaction() {
    let mut b = Buf::new(8);
    assert_eq!((b.readable(), b.writeable()), (0, 8));
    assert_eq!(b.write_from_slice(b"abcdef"), 6);
    assert_eq!((b.readable(), b.writeable()), (6, 2));
    assert_eq!(b.get(2), b"ab");
    assert_eq!(b.get(100), b"abcdef");
    b.skip(4);
    assert_eq!((b.readable(), b.writeable()), (2, 2));
    assert_eq!(b.flip(), 2);
    assert_eq!((b.readable(), b.writeable()), (2, 6));
    assert_eq!(b.get(8), b"ef");
    assert_eq!(b.write_from_slice(b"0123456789"), 6);
    assert_eq!(b.get(8), b"ef012345");
    assert_eq!(b.writeable(), 0);
    b.skip(100);
    assert_eq!(b.readable(), 0);
    b.reset();
    assert_eq!((b.readable(), b.writeable()), (0, 8));
}

#[test]
fn buffer_from_bytes() {
    let b = Buf::from(b"+\r\n".to_vec());
    assert_eq!(b.readable(), 3);
    assert_eq!(b.writeable(), 0);
    assert_eq!(b.get(3), b"+\r\n");
}

#[test]
fn merge_ends_when_both_end() {
    let mut m: CombinedStream<u8, u8> = CombinedStream::new(1, 2);
    assert!(m.first_mut().is_some());
    assert!(matches!(m.on_first::<u8, u8>(Some(Some(5))), Some(CombinedStreamOutput::First(5))));
    assert!(m.on_first::<u8, u8>(None).is_none());
    assert!(m.on_first::<u8, u8>(Some(None)).is_none());
    assert!(m.first_mut().is_none());
    assert!(!m.is_finished());
    assert!(matches!(m.on_second::<u8, u8>(Some(Some(7))), Some(CombinedStreamOutput::Second(7))));
    assert_eq!(m.second_mut().map(|s| *s), Some(2));
    assert!(m.on_second::<u8, u8>(Some(None)).is_none());
    assert!(m.second_mut().is_none());
    assert!(m.is_finished());
}

#[test]
fn default_config() {
    let c = Config::default();
    assert_eq!(c.bind, "127.0.0.1:17900");
    assert_eq!(c.page_roll_interval, 5000);
    assert_eq!(c.display_size, "128x32");
    assert_eq!(c.font, "6x8");
    assert_eq!(c.line_interval, 10);
}
