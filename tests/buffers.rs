use toolkit::cmd::Poll;
use toolkit::cmd::rw::{Cmd, Request, Response, Status};
use toolkit::collection::cursor::Cursor;
use toolkit::collection::deque::{Deque, DequeError};
use toolkit::collection::string::String as ByteString;
use toolkit::collection::uhv::{UhvDeque, UhvDequeError};
use toolkit::elf::{ElfEndian, ElfFormat, ElfParser, Error as ElfError};
use toolkit::ip::IPQueue;
use toolkit::log::LogBuf;
use toolkit::rawbuf::RawBuf;

fn items<const L: usize>(d: &Deque<u8, L>) -> Vec<u8> {
    let mut it = d.iter();
    let mut out = Vec::new();
    while let Some(x) = it.next() {
        out.push(*x);
    }
    out
}

#[test]
fn cursor_wraps_both_ways() {
    let mut up = Cursor::new(2, 3, true);
    up.next();
    assert_eq!(up.pos(), 0);
    up.prev();
    assert_eq!(up.pos(), 2);
    let mut down = Cursor::new(0, 3, false);
    down.next();
    assert_eq!(down.pos(), 2);
    down.prev();
    assert_eq!(down.pos(), 0);
    assert_eq!(Cursor::new(9, 3, true).pos(), 2);
}

#[test]
fn zero_capacity_deque_takes_nothing() {
    let mut d = Deque::<u8, 0>::default();
    assert_eq!(d.capacity(), 0);
    assert!(d.is_empty());
    assert!(d.is_full());
    assert_eq!(d.push_back(1), Err(DequeError::Fatal));
    assert_eq!(d.push_front(1), Err(DequeError::Fatal));
    assert_eq!(d.pop_back(), None);
    d.push_overwrite(3);
    assert_eq!(d.len(), 0);
    let mut it = d.into_iter();
    assert_eq!(it.next(), None);
    assert_eq!(it.next_back(), None);
}

#[test]
fn single_slot_deque() {
    let mut d = Deque::<u8, 1>::new(|_| 0);
    assert_eq!(d.push_front(5), Ok(()));
    assert!(d.is_full());
    assert_eq!(d.push_back(6), Err(DequeError::Fatal));
    assert_eq!(d.pop_back(), Some(5));
    assert!(d.is_empty());
    assert_eq!(d.pop_front(), None);
}

#[test]
fn constructor_runs_once_per_slot_and_starts_empty() {
    let d = Deque::<usize, 4>::new(|i| i * 10);
    assert_eq!(d.len(), 0);
    assert_eq!(d.get_front(), (0, true));
    assert_eq!(d.get_back(), (3, true));
}

#[test]
fn slices_cover_contents_in_reverse_runs() {
    let mut d = Deque::<u8, 5>::default();
    for x in [1, 2, 3] {
        let _ = d.push_back(x);
    }
    let (a, b) = d.as_slices();
    assert_eq!(a, &[3, 2, 1]);
    assert!(b.is_empty());

    let _ = d.push_front(0);
    let _ = d.push_front(9);
    let (a, b) = d.as_slices();
    assert_eq!(a.len() + b.len(), 5);
    let mut logical: Vec<u8> = a.iter().rev().copied().collect();
    logical.extend(b.iter().rev().copied());
    assert_eq!(logical, vec![9, 0, 1, 2, 3]);
    assert!(!b.is_empty());
}

#[test]
fn get_indexes_from_the_front() {
    let mut d = Deque::<u8, 4>::default();
    let _ = d.push_back(1);
    let _ = d.push_back(2);
    let _ = d.push_front(0);
    assert_eq!(d.get(0), Some(&0));
    assert_eq!(d.get(2), Some(&2));
    assert_eq!(d.get(3), None);
}

#[test]
fn ref_iterator_from_both_ends() {
    let mut d = Deque::<u8, 4>::default();
    for x in [1, 2, 3] {
        let _ = d.push_back(x);
    }
    let mut it = d.iter();
    assert_eq!(it.size_hint(), (3, Some(3)));
    assert_eq!(it.next_back(), Some(&3));
    assert_eq!(it.next(), Some(&1));
    assert_eq!(it.next(), Some(&2));
    assert_eq!(it.next_back(), None);
    assert_eq!(it.next(), None);
}

#[test]
fn chunk_evicts_exactly_enough() {
    let mut d = Deque::<u8, 6>::default();
    d.extend_overwrite(b"abcd");
    d.extend_overwrite(b"xyz");
    assert_eq!(items(&d), b"bcdxyz".to_vec());
    d.extend_overwrite(b"0123456789");
    assert_eq!(items(&d), b"456789".to_vec());
}

#[test]
fn from_iter_drops_items_past_capacity() {
    let d = Deque::<u8, 3>::from_iter(&[1, 2, 3, 4, 5]);
    assert_eq!(items(&d), vec![1, 2, 3]);
}

#[test]
fn byte_string_keeps_last_bytes() {
    let s = ByteString::<4>::new("hello");
    assert_eq!(items(s.bytes()), b"ello".to_vec());
    let t = ByteString::<8>::new("hi");
    assert_eq!(items(t.bytes()), b"hi".to_vec());
}

#[test]
fn request_queue_skips_noop_and_drops_oldest() {
    let mut q = Request::<2>::default();
    q.push(Cmd::Noop);
    assert!(q.pop().is_none());
    q.push(Cmd::Read(RawBuf::new(0x1000, 8)));
    q.push(Cmd::Write(RawBuf::new(0x2000, 16)));
    q.push(Cmd::Write(RawBuf::new(0x3000, 32)));
    match q.pop() {
        Some(Cmd::Write(b)) => {
            assert_eq!(b.addr(), 0x2000);
            assert_eq!(b.len(), 16);
        }
        _ => panic!("expected the second command"),
    }
    assert!(matches!(q.pop(), Some(Cmd::Write(_))));
    assert!(q.pop().is_none());
}

#[test]
fn response_queue_is_bounded() {
    let mut q = Response::<2>::default();
    q.push(Status::Success);
    q.push(Status::Success);
    q.push(Status::Success);
    assert_eq!(q.pop(), Some(Status::Success));
    assert_eq!(q.pop(), Some(Status::Success));
    assert_eq!(q.pop(), None);
}

#[test]
fn log_buffer_evicts_oldest_for_whole_chunk() {
    let mut log = LogBuf::new();
    assert!(!log.is_ready());
    assert_eq!(log.write_str("0123456789abcdefghijklmnop"), Ok(()));
    assert!(!log.is_ready());
    assert_eq!(log.write_str("QRSTUVWXYZ"), Ok(()));
    assert!(log.is_ready());
    let data = log.get_data().to_vec();
    assert_eq!(data, b"456789abcdefghijklmnopQRSTUVWXYZ".to_vec());
    assert!(!log.is_ready());
    assert_eq!(log.write_str("zz"), Ok(()));
    assert_eq!(&log.get_data()[0..4], b"zz67");
}

#[test]
fn log_buffer_keeps_short_chunk_whole_when_nearly_full() {
    let mut log = LogBuf::new();
    assert_eq!(log.write_str("abcdefghijklmnopqrstuvwxyz0123"), Ok(()));
    assert!(!log.is_ready());
    assert_eq!(log.write_str("WXYZ"), Ok(()));
    assert!(log.is_ready());
    assert_eq!(log.get_data().to_vec(), b"cdefghijklmnopqrstuvwxyz0123WXYZ".to_vec());
}

#[test]
fn log_buffer_long_chunk_keeps_its_tail() {
    let mut log = LogBuf::new();
    assert_eq!(log.write_str("ab"), Ok(()));
    assert_eq!(log.write_str("0123456789012345678901234567890123456789"), Ok(()));
    assert!(log.is_ready());
    assert_eq!(log.get_data().to_vec(), b"89012345678901234567890123456789".to_vec());
}

#[test]
fn elf_identification_is_read() {
    let mut p = ElfParser::new();
    assert_eq!(p.pull(&[0x7F, b'E', b'L', b'F', 2, 1, 1, 0]), Ok(()));
    let id = p.get_id();
    assert_eq!(id.magick, 0x7F45_4C46);
    assert_eq!(id.format, ElfFormat::Bit64);
    assert_eq!(id.endian, ElfEndian::Little);
}

#[test]
fn elf_unknown_format_or_order_fails() {
    let mut p = ElfParser::new();
    assert_eq!(p.pull(&[0x7F, b'E', b'L', b'F', 3, 1]), Err(ElfError::Fatal));
    assert_eq!(p.get_id().format, ElfFormat::Unknown);
    assert_eq!(p.get_id().magick, 0x7F45_4C46);
    assert_eq!(p.pull(&[0, 0, 0, 1, 1, 9]), Err(ElfError::Fatal));
    assert_eq!(p.get_id().format, ElfFormat::Bit32);
    assert_eq!(p.get_id().endian, ElfEndian::Unknown);
    assert_eq!(p.get_id().magick, 1);
}

#[test]
fn uhv_deque_reports_its_own_error() {
    let mut d = UhvDeque::<u16, 2>::new();
    assert_eq!(d.capacity(), 2);
    assert_eq!(d.push_back(1), Ok(()));
    assert_eq!(d.push_front(0), Ok(()));
    assert_eq!(d.push_back(2), Err(UhvDequeError::Fatal));
    assert_eq!(d.len(), 2);
    let mut it = d.into_iter();
    assert_eq!(it.next(), Some(0));
    assert_eq!(it.next_back(), Some(1));
    assert_eq!(it.next(), None);
    assert_eq!(d.pop_back(), Some(1));
    assert_eq!(d.pop_front(), Some(0));
    assert_eq!(d.pop_front(), None);
}

#[test]
fn ip_queue_refuses_short_reads() {
    let mut q = IPQueue::<(), 4>::new(());
    let good = [Cmd::Read(RawBuf::new(0, 128)), Cmd::Write(RawBuf::new(0, 1)), Cmd::Noop];
    assert!(matches!(q.push(&good), Poll::Ready(Ok(()))));
    let bad = [Cmd::Write(RawBuf::new(0, 1)), Cmd::Read(RawBuf::new(0, 127))];
    assert!(matches!(q.push(&bad), Poll::Ready(Err(_))));
    match q.pop() {
        Poll::Ready(Ok(d)) => assert_eq!(d.len(), 0),
        _ => panic!("expected the responses"),
    }
}
