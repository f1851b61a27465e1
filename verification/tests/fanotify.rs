use fanotify_perm_fix::fanotify::{
    byte_order_of_probe, decode_record, dispatch_events, native_byte_order, ByteOrder, EventWalk,
    FanotifyEventMetadata,
    FanotifyWatcher, InitRequest, MarkRequest, WatcherError, EAGAIN, EVENT_METADATA_LEN,
    FAN_ATTRIB, FAN_CLASS_NOTIF, FAN_CLOEXEC, FAN_CREATE, FAN_EVENT_ON_CHILD, FAN_MARK_ADD,
    FAN_MOVED_TO, FAN_NONBLOCK, O_RDONLY,
};

fn metadata(event_len: u32, mask: u64, fd: i32, pid: i32) -> FanotifyEventMetadata {
    FanotifyEventMetadata { event_len, vers: 3, reserved: 0, metadata_len: 24, mask, fd, pid }
}

// The bytes of a record as the kernel of this machine writes them, with
// trailing data up to the declared length.
fn native_bytes(m: &FanotifyEventMetadata) -> Vec<u8> {
    let mut bytes: Vec<u8> = Vec::new();
    bytes.extend_from_slice(&m.event_len.to_ne_bytes());
    bytes.push(m.vers);
    bytes.push(m.reserved);
    bytes.extend_from_slice(&m.metadata_len.to_ne_bytes());
    bytes.extend_from_slice(&m.mask.to_ne_bytes());
    bytes.extend_from_slice(&m.fd.to_ne_bytes());
    bytes.extend_from_slice(&m.pid.to_ne_bytes());
    while bytes.len() < m.event_len as usize {
        bytes.push(0xa5);
    }
    bytes
}

fn ordered_bytes(m: &FanotifyEventMetadata, order: ByteOrder) -> Vec<u8> {
    let mut bytes: Vec<u8> = Vec::new();
    match order {
        ByteOrder::LittleEndian => {
            bytes.extend_from_slice(&m.event_len.to_le_bytes());
            bytes.push(m.vers);
            bytes.push(m.reserved);
            bytes.extend_from_slice(&m.metadata_len.to_le_bytes());
            bytes.extend_from_slice(&m.mask.to_le_bytes());
            bytes.extend_from_slice(&m.fd.to_le_bytes());
            bytes.extend_from_slice(&m.pid.to_le_bytes());
        }
        ByteOrder::BigEndian => {
            bytes.extend_from_slice(&m.event_len.to_be_bytes());
            bytes.push(m.vers);
            bytes.push(m.reserved);
            bytes.extend_from_slice(&m.metadata_len.to_be_bytes());
            bytes.extend_from_slice(&m.mask.to_be_bytes());
            bytes.extend_from_slice(&m.fd.to_be_bytes());
            bytes.extend_from_slice(&m.pid.to_be_bytes());
        }
    }
    while bytes.len() < m.event_len as usize {
        bytes.push(0x5a);
    }
    bytes
}

fn watcher() -> FanotifyWatcher {
    FanotifyWatcher::new("/data/samba/share", 5, 0).unwrap()
}

// Runs the watcher over the buffer and returns what the handler was given.
fn seen_by_handler(buf: &[u8]) -> Vec<FanotifyEventMetadata> {
    let mut seen: Vec<FanotifyEventMetadata> = Vec::new();
    let r: Result<(), String> = watcher().process_events(buf, |m| {
        seen.push(*m);
        Ok(())
    });
    assert_eq!(r, Ok(()));
    seen
}

#[test]
fn header_is_24_bytes_as_in_libc() {
    assert_eq!(EVENT_METADATA_LEN, 24);
    assert_eq!(EVENT_METADATA_LEN, std::mem::size_of::<libc::fanotify_event_metadata>());
}

#[test]
fn constants_are_those_of_libc() {
    assert_eq!(FAN_CLASS_NOTIF, libc::FAN_CLASS_NOTIF);
    assert_eq!(FAN_CLOEXEC, libc::FAN_CLOEXEC);
    assert_eq!(FAN_NONBLOCK, libc::FAN_NONBLOCK);
    assert_eq!(FAN_MARK_ADD, libc::FAN_MARK_ADD);
    assert_eq!(u64::from(FAN_EVENT_ON_CHILD), libc::FAN_EVENT_ON_CHILD);
    assert_eq!(FAN_ATTRIB, libc::FAN_ATTRIB);
    assert_eq!(FAN_MOVED_TO, libc::FAN_MOVED_TO);
    assert_eq!(FAN_CREATE, libc::FAN_CREATE);
    assert_eq!(EAGAIN, libc::EAGAIN);
    assert_eq!(EAGAIN, libc::EWOULDBLOCK);
}

#[test]
fn decodes_little_endian_bytes() {
    let buf: [u8; 24] = [
        0x18, 0x00, 0x00, 0x00, // event_len
        0x03, // vers
        0x09, // reserved
        0x18, 0x01, // metadata_len
        0x00, 0x01, 0x00, 0x00, 0x00, 0x00, 0x00, 0x80, // mask
        0x07, 0x00, 0x00, 0x00, // fd
        0xd2, 0x04, 0x00, 0x00, // pid
    ];
    let expected = FanotifyEventMetadata {
        event_len: 24,
        vers: 3,
        reserved: 9,
        metadata_len: 0x0118,
        mask: 0x8000_0000_0000_0100,
        fd: 7,
        pid: 1234,
    };
    assert_eq!(decode_record(&buf, 0, ByteOrder::LittleEndian), Some(expected));
}

#[test]
fn decodes_big_endian_bytes() {
    let buf: [u8; 24] = [
        0x00, 0x00, 0x00, 0x18, // event_len
        0x03, // vers
        0x09, // reserved
        0x01, 0x18, // metadata_len
        0x80, 0x00, 0x00, 0x00, 0x00, 0x00, 0x01, 0x00, // mask
        0x00, 0x00, 0x00, 0x07, // fd
        0x00, 0x00, 0x04, 0xd2, // pid
    ];
    let expected = FanotifyEventMetadata {
        event_len: 24,
        vers: 3,
        reserved: 9,
        metadata_len: 0x0118,
        mask: 0x8000_0000_0000_0100,
        fd: 7,
        pid: 1234,
    };
    assert_eq!(decode_record(&buf, 0, ByteOrder::BigEndian), Some(expected));
    // Read the other way round, the same bytes are another record.
    let swapped = decode_record(&buf, 0, ByteOrder::LittleEndian).unwrap();
    assert_eq!(swapped.event_len, 0x1800_0000);
    assert_eq!(swapped.metadata_len, 0x1801);
    assert_eq!(swapped.fd, 0x0700_0000);
}

#[test]
fn decodes_negative_numbers() {
    let samples = [
        metadata(24, 0, -1, -2),
        metadata(24, u64::MAX, i32::MIN, i32::MAX),
        metadata(u32::MAX, 1, i32::MAX, i32::MIN),
        metadata(0x8000_0000, 0x0123_4567_89ab_cdef, -0x0102_0304, 0x0102_0304),
    ];
    for order in [ByteOrder::LittleEndian, ByteOrder::BigEndian] {
        for m in samples {
            let mut bytes = ordered_bytes(&metadata(24, m.mask, m.fd, m.pid), order);
            let len = match order {
                ByteOrder::LittleEndian => m.event_len.to_le_bytes(),
                ByteOrder::BigEndian => m.event_len.to_be_bytes(),
            };
            bytes[..4].copy_from_slice(&len);
            assert_eq!(decode_record(&bytes, 0, order), Some(m));
        }
    }
}

#[test]
fn decodes_at_an_offset() {
    let first = metadata(24, FAN_CREATE, 3, 10);
    let second = metadata(24, FAN_ATTRIB, 4, 11);
    let mut buf = ordered_bytes(&first, ByteOrder::BigEndian);
    buf.extend(ordered_bytes(&second, ByteOrder::BigEndian));
    assert_eq!(decode_record(&buf, 0, ByteOrder::BigEndian), Some(first));
    assert_eq!(decode_record(&buf, 24, ByteOrder::BigEndian), Some(second));
}

#[test]
fn decodes_nothing_where_no_header_fits() {
    let buf = ordered_bytes(&metadata(24, FAN_CREATE, 3, 10), ByteOrder::LittleEndian);
    assert_eq!(decode_record(&buf, 1, ByteOrder::LittleEndian), None);
    assert_eq!(decode_record(&buf, 24, ByteOrder::LittleEndian), None);
    assert_eq!(decode_record(&buf, 25, ByteOrder::LittleEndian), None);
    assert_eq!(decode_record(&buf, usize::MAX, ByteOrder::LittleEndian), None);
    assert_eq!(decode_record(&buf[..23], 0, ByteOrder::LittleEndian), None);
    assert_eq!(decode_record(&[], 0, ByteOrder::LittleEndian), None);
}

#[test]
fn decodes_nothing_where_the_length_is_zero() {
    let mut buf = ordered_bytes(&metadata(24, FAN_CREATE, 3, 10), ByteOrder::LittleEndian);
    buf[..4].copy_from_slice(&[0, 0, 0, 0]);
    assert_eq!(decode_record(&buf, 0, ByteOrder::LittleEndian), None);
    assert_eq!(decode_record(&buf, 0, ByteOrder::BigEndian), None);
}

#[test]
fn native_order_reads_what_the_machine_writes() {
    let m = metadata(24, FAN_MOVED_TO | FAN_CREATE, 0x0102_0304, -0x0a0b_0c0d);
    assert_eq!(decode_record(&native_bytes(&m), 0, native_byte_order()), Some(m));
    let expected = if 1u16.to_ne_bytes() == [1, 0] {
        ByteOrder::LittleEndian
    } else {
        ByteOrder::BigEndian
    };
    assert_eq!(native_byte_order(), expected);
}

#[test]
fn empty_buffer_dispatches_nothing() {
    assert_eq!(seen_by_handler(&[]), vec![]);
}

#[test]
fn short_buffer_dispatches_nothing() {
    let buf = native_bytes(&metadata(24, FAN_CREATE, 3, 10));
    for len in 0..24 {
        assert_eq!(seen_by_handler(&buf[..len]), vec![]);
    }
}

#[test]
fn zero_length_record_dispatches_nothing() {
    let mut buf = native_bytes(&metadata(24, FAN_CREATE, 3, 10));
    buf.extend(native_bytes(&metadata(24, FAN_ATTRIB, 4, 11)));
    buf[..4].copy_from_slice(&[0, 0, 0, 0]);
    assert_eq!(seen_by_handler(&buf), vec![]);
}

#[test]
fn zero_length_record_ends_the_walk() {
    let first = metadata(24, FAN_CREATE, 3, 10);
    let mut buf = native_bytes(&first);
    buf.extend(native_bytes(&metadata(0, FAN_ATTRIB, 4, 11)));
    buf.extend(native_bytes(&metadata(24, FAN_ATTRIB, 5, 12)));
    assert_eq!(seen_by_handler(&buf), vec![first]);
}

#[test]
fn records_are_dispatched_in_the_order_of_the_buffer() {
    for n in 0..20 {
        let mut expected: Vec<FanotifyEventMetadata> = Vec::new();
        let mut buf: Vec<u8> = Vec::new();
        for i in 0..n {
            let m = metadata(24, FAN_CREATE << (i % 3), 100 + i, 2000 - i);
            buf.extend(native_bytes(&m));
            expected.push(m);
        }
        assert_eq!(buf.len(), 24 * n as usize);
        assert_eq!(seen_by_handler(&buf), expected);
    }
}

#[test]
fn records_longer_than_the_header_are_stepped_over_whole() {
    let first = metadata(40, FAN_CREATE, 3, 10);
    let second = metadata(24, FAN_ATTRIB, 4, 11);
    let third = metadata(25, FAN_MOVED_TO, 5, 12);
    let fourth = metadata(24, FAN_ATTRIB, 6, 13);
    let mut buf: Vec<u8> = Vec::new();
    for m in [first, second, third, fourth] {
        buf.extend(native_bytes(&m));
    }
    assert_eq!(buf.len(), 40 + 24 + 25 + 24);
    assert_eq!(seen_by_handler(&buf), vec![first, second, third, fourth]);
}

#[test]
fn truncated_last_record_is_dropped() {
    let first = metadata(24, FAN_CREATE, 3, 10);
    let second = metadata(24, FAN_ATTRIB, 4, 11);
    let mut buf = native_bytes(&first);
    buf.extend(native_bytes(&second));
    assert_eq!(seen_by_handler(&buf[..47]), vec![first]);
    assert_eq!(seen_by_handler(&buf[..25]), vec![first]);
}

#[test]
fn record_that_declares_more_than_is_there_is_the_last() {
    let first = metadata(1000, FAN_CREATE, 3, 10);
    let mut buf = native_bytes(&first);
    buf.truncate(24);
    buf.extend(native_bytes(&metadata(24, FAN_ATTRIB, 4, 11)));
    assert_eq!(seen_by_handler(&buf), vec![first]);
    let huge = metadata(u32::MAX, FAN_CREATE, 3, 10);
    let mut buf = native_bytes(&metadata(24, FAN_CREATE, 3, 10));
    buf[..4].copy_from_slice(&u32::MAX.to_ne_bytes());
    buf.extend(native_bytes(&metadata(24, FAN_ATTRIB, 4, 11)));
    assert_eq!(seen_by_handler(&buf), vec![huge]);
}

#[test]
fn record_shorter_than_its_header_moves_the_walk_by_its_length() {
    // The walk trusts the declared length: after a record of 8 bytes the
    // next header is read 8 bytes further on.
    let inner = metadata(24, FAN_ATTRIB, 4, 11);
    let mut buf = vec![0u8; 8];
    buf[..4].copy_from_slice(&8u32.to_ne_bytes());
    buf.extend(native_bytes(&inner));
    let seen = seen_by_handler(&buf);
    assert_eq!(seen.len(), 2);
    assert_eq!(seen[0].event_len, 8);
    assert_eq!(seen[1], inner);
}

#[test]
fn handler_error_ends_the_walk() {
    let n = 6;
    let mut buf: Vec<u8> = Vec::new();
    for i in 0..n {
        buf.extend(native_bytes(&metadata(24, FAN_CREATE, i, 0)));
    }
    for failing in 0..n {
        let mut seen: Vec<i32> = Vec::new();
        let r = watcher().process_events(&buf, |m| {
            seen.push(m.fd);
            if m.fd == failing {
                Err(format!("failed on {}", m.fd))
            } else {
                Ok(())
            }
        });
        assert_eq!(r, Err(format!("failed on {}", failing)));
        let expected: Vec<i32> = (0..=failing).collect();
        assert_eq!(seen, expected);
    }
}

#[test]
fn handler_may_return_io_errors() {
    let buf = native_bytes(&metadata(24, FAN_CREATE, 3, 10));
    let r = watcher().process_events(&buf, |_| -> std::io::Result<()> {
        Err(std::io::Error::new(std::io::ErrorKind::Other, "no"))
    });
    assert_eq!(r.unwrap_err().kind(), std::io::ErrorKind::Other);
    let r = watcher().process_events(&buf, |_| -> std::io::Result<()> { Ok(()) });
    assert!(r.is_ok());
}

#[test]
fn dispatch_reads_in_the_order_it_is_given() {
    let first = metadata(32, FAN_CREATE, 3, 10);
    let second = metadata(24, FAN_ATTRIB, -1, 11);
    for order in [ByteOrder::LittleEndian, ByteOrder::BigEndian] {
        let mut buf = ordered_bytes(&first, order);
        buf.extend(ordered_bytes(&second, order));
        let mut seen: Vec<FanotifyEventMetadata> = Vec::new();
        let r: Result<(), ()> = dispatch_events(&buf, order, |m| {
            seen.push(*m);
            Ok(())
        });
        assert_eq!(r, Ok(()));
        assert_eq!(seen, vec![first, second]);
    }
}

#[test]
fn dispatch_surfaces_the_first_error() {
    let mut buf: Vec<u8> = Vec::new();
    for i in 0..4 {
        buf.extend(ordered_bytes(&metadata(24, FAN_CREATE, i, 0), ByteOrder::BigEndian));
    }
    let mut calls = 0;
    let r = dispatch_events(&buf, ByteOrder::BigEndian, |m| {
        calls += 1;
        if m.fd >= 1 {
            Err(m.fd)
        } else {
            Ok(())
        }
    });
    assert_eq!(r, Err(1));
    assert_eq!(calls, 2);
}

#[test]
fn channel_is_opened_non_blocking_and_close_on_exec() {
    let request = FanotifyWatcher::init_request();
    assert_eq!(request, InitRequest { flags: 3, event_f_flags: 0 });
    assert_eq!(request.flags, libc::FAN_CLASS_NOTIF | libc::FAN_NONBLOCK | libc::FAN_CLOEXEC);
    assert_eq!(request.event_f_flags as i32, libc::O_RDONLY);
    assert_eq!(O_RDONLY as i32, libc::O_RDONLY);
}

#[test]
fn watcher_keeps_descriptor_and_directory() {
    let w = FanotifyWatcher::new("/srv/share", 0, 0).unwrap();
    assert_eq!(w.fd(), 0);
    assert_eq!(w.base_dir(), "/srv/share");
    let w = FanotifyWatcher::new("", i32::MAX, 13).unwrap();
    assert_eq!(w.fd(), i32::MAX);
    assert_eq!(w.base_dir(), "");
}

#[test]
fn failed_init_gives_no_watcher() {
    let r = FanotifyWatcher::new("/srv/share", -1, 1);
    assert_eq!(r.err(), Some(WatcherError::Init { errno: 1 }));
    let r = FanotifyWatcher::new("/srv/share", i32::MIN, 38);
    assert_eq!(r.err(), Some(WatcherError::Init { errno: 38 }));
}

#[test]
fn watch_is_for_creation_move_in_and_attribute_change() {
    let request = watcher().mark_request();
    assert_eq!(
        request,
        MarkRequest { flags: 0x0800_0001, mask: 0x184, dirfd: -1 }
    );
    assert_eq!(request.mask, libc::FAN_CREATE | libc::FAN_MOVED_TO | libc::FAN_ATTRIB);
    assert_eq!(u64::from(request.flags), u64::from(libc::FAN_MARK_ADD) | libc::FAN_EVENT_ON_CHILD);
}

#[test]
fn mark_fails_where_the_kernel_refused() {
    let w = watcher();
    assert_eq!(w.mark(0, 0), Ok(()));
    assert_eq!(w.mark(0, 22), Ok(()));
    assert_eq!(w.mark(-1, 2), Err(WatcherError::Mark { errno: 2 }));
    assert_eq!(w.mark(-1, 22), Err(WatcherError::Mark { errno: 22 }));
}

#[test]
fn read_of_bytes_is_their_count() {
    let w = watcher();
    assert_eq!(w.read_events(24, 0), Ok(24));
    assert_eq!(w.read_events(4096, 11), Ok(4096));
    assert_eq!(w.read_events(isize::MAX, 5), Ok(isize::MAX as usize));
}

#[test]
fn read_of_nothing_is_no_error() {
    let w = watcher();
    assert_eq!(w.read_events(0, 0), Ok(0));
    assert_eq!(w.read_events(0, 5), Ok(0));
    assert_eq!(w.read_events(-1, EAGAIN), Ok(0));
    assert_eq!(w.read_events(-1, libc::EWOULDBLOCK), Ok(0));
}

#[test]
fn read_failure_is_an_error() {
    let w = watcher();
    assert_eq!(w.read_events(-1, libc::EBADF), Err(WatcherError::Read { errno: libc::EBADF }));
    assert_eq!(w.read_events(-1, libc::EINTR), Err(WatcherError::Read { errno: libc::EINTR }));
    assert_eq!(w.read_events(-1, 0), Err(WatcherError::Read { errno: 0 }));
    assert_eq!(w.read_events(isize::MIN, 5), Err(WatcherError::Read { errno: 5 }));
}

#[test]
fn walk_meets_each_record_once_and_in_order() {
    let records = [
        metadata(24, FAN_CREATE, 3, 10),
        metadata(100, FAN_ATTRIB, -1, 11),
        metadata(24, FAN_MOVED_TO, 5, 12),
    ];
    for order in [ByteOrder::LittleEndian, ByteOrder::BigEndian] {
        let mut buf: Vec<u8> = Vec::new();
        for m in &records {
            buf.extend(ordered_bytes(m, order));
        }
        let mut walk = EventWalk::new(&buf, order);
        assert_eq!(walk.next_record(), Some(records[0]));
        assert_eq!(walk.next_record(), Some(records[1]));
        assert_eq!(walk.next_record(), Some(records[2]));
        assert_eq!(walk.next_record(), None);
        assert_eq!(walk.next_record(), None);
    }
}

#[test]
fn walk_over_nothing_meets_nothing() {
    let mut walk = EventWalk::new(&[], ByteOrder::LittleEndian);
    assert_eq!(walk.next_record(), None);
    let zero = ordered_bytes(&metadata(24, FAN_CREATE, 3, 10), ByteOrder::BigEndian);
    let mut buf = zero.clone();
    buf[..4].copy_from_slice(&[0, 0, 0, 0]);
    buf.extend(zero);
    let mut walk = EventWalk::new(&buf, ByteOrder::BigEndian);
    assert_eq!(walk.next_record(), None);
    assert_eq!(walk.next_record(), None);
}

#[test]
fn walk_ends_after_a_record_that_reaches_past_the_buffer() {
    let long = metadata(u32::MAX, FAN_CREATE, 3, 10);
    let mut buf = ordered_bytes(&metadata(24, FAN_CREATE, 3, 10), ByteOrder::LittleEndian);
    buf[..4].copy_from_slice(&u32::MAX.to_le_bytes());
    buf.extend(ordered_bytes(&metadata(24, FAN_ATTRIB, 4, 11), ByteOrder::LittleEndian));
    let mut walk = EventWalk::new(&buf, ByteOrder::LittleEndian);
    assert_eq!(walk.next_record(), Some(long));
    assert_eq!(walk.next_record(), None);
}

#[test]
fn probe_shows_the_byte_order() {
    assert_eq!(byte_order_of_probe(u16::from_le_bytes([1, 0])), ByteOrder::LittleEndian);
    assert_eq!(byte_order_of_probe(u16::from_be_bytes([1, 0])), ByteOrder::BigEndian);
    assert_eq!(byte_order_of_probe(1), ByteOrder::LittleEndian);
    assert_eq!(byte_order_of_probe(256), ByteOrder::BigEndian);
    assert_eq!(byte_order_of_probe(u16::from_ne_bytes([1, 0])), native_byte_order());
}
