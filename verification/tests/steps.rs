use ziprand::content::ContentRange;
use ziprand::records::{legacy_directory, locator_offset, CentralHeader};
use ziprand::scan::EndScan;
use ziprand::{Structure, ZipEntry, ZipError, EOCD_SIGNATURE};

fn windows(size: u64) -> Vec<(u64, usize)> {
    let mut scan = EndScan::new(size);
    let mut out = Vec::new();
    while let Some(window) = scan.window() {
        out.push(window);
        scan = scan.advance();
    }
    out
}

#[test]
fn search_covers_the_last_bytes_in_windows_that_share_three() {
    assert_eq!(windows(0), vec![]);
    assert_eq!(windows(1), vec![(0, 1)]);
    assert_eq!(windows(22), vec![(0, 22)]);
    assert_eq!(windows(8192), vec![(0, 8192)]);
    assert_eq!(windows(8193), vec![(1, 8192), (0, 4)]);
    assert_eq!(windows(8195), vec![(3, 8192), (0, 6)]);
    assert_eq!(windows(20000), vec![(11808, 8192), (3619, 8192), (0, 3622)]);
    assert_eq!(
        windows(65657),
        vec![
            (57465, 8192),
            (49276, 8192),
            (41087, 8192),
            (32898, 8192),
            (24709, 8192),
            (16520, 8192),
            (8331, 8192),
            (142, 8192),
            (100, 45),
        ]
    );
}

#[test]
fn search_stops_at_the_floor() {
    assert_eq!(EndScan::new(65557), EndScan { floor: 0, end: 65557 });
    assert_eq!(EndScan::new(65558), EndScan { floor: 1, end: 65558 });
    assert_eq!(EndScan::new(1 << 40), EndScan { floor: (1 << 40) - 65557, end: 1 << 40 });
    assert_eq!(EndScan::new(u64::MAX).window(), Some((u64::MAX - 8192, 8192)));
    let all = windows(u64::MAX);
    assert_eq!(all.len(), 9);
    assert_eq!(all[8], (u64::MAX - 65557, 45));
    for size in [5000u64, 8192, 8193, 30000, 65557, 65558, 1 << 33] {
        let list = windows(size);
        let floor = size.saturating_sub(65557);
        assert_eq!(list[0].0 + list[0].1 as u64, size);
        assert_eq!(list[list.len() - 1].0, floor);
        for pair in list.windows(2) {
            assert_eq!(pair[1].0 + pair[1].1 as u64, pair[0].0 + 3);
        }
    }
    let done = EndScan { floor: 7, end: 7 };
    assert_eq!(done.window(), None);
    assert_eq!(done.advance(), done);
}

#[test]
fn signature_in_a_window_is_placed_in_the_source() {
    let scan = EndScan::new(20000);
    let mut chunk = vec![0u8; 8192];
    assert_eq!(scan.locate(&chunk), None);
    chunk[100..104].copy_from_slice(&EOCD_SIGNATURE);
    assert_eq!(scan.locate(&chunk), Some(11908));
    chunk[8188..8192].copy_from_slice(&EOCD_SIGNATURE);
    assert_eq!(scan.locate(&chunk), Some(19996));
    let last = EndScan { floor: 0, end: 3622 };
    assert_eq!(last.window(), Some((0, 3622)));
    assert_eq!(last.locate(&chunk[..3622]), Some(100));
}

#[test]
fn content_range_bounds_every_read() {
    let range = ContentRange::new(35, 5);
    assert_eq!((range.data_offset(), range.size()), (35, 5));
    assert_eq!(range.locate(0, 5).unwrap(), 35);
    assert_eq!(range.locate(0, 0).unwrap(), 35);
    assert_eq!(range.locate(4, 1).unwrap(), 39);
    assert_eq!(range.locate(5, 0).unwrap(), 40);
    assert!(matches!(range.locate(5, 1), Err(ZipError::OutOfBounds)));
    assert!(matches!(range.locate(0, 6), Err(ZipError::OutOfBounds)));
    assert!(matches!(range.locate(6, 0), Err(ZipError::OutOfBounds)));
    assert!(matches!(range.locate(u64::MAX, usize::MAX), Err(ZipError::OutOfBounds)));
    let empty = ContentRange::new(0, 0);
    assert_eq!(empty.locate(0, 0).unwrap(), 0);
    assert!(matches!(empty.locate(0, 1), Err(ZipError::OutOfBounds)));
}

#[test]
fn content_range_takes_offset_and_size_as_they_are_declared() {
    let widest = ContentRange::new(0, u64::MAX);
    assert_eq!(widest.locate(u64::MAX - 1, 1).unwrap(), u64::MAX - 1);
    let last = ContentRange::new(u64::MAX, 0);
    assert_eq!(last.locate(0, 0).unwrap(), u64::MAX);
    let edge = ContentRange::new(u64::MAX - 10, 10);
    assert_eq!(edge.locate(10, 0).unwrap(), u64::MAX);
    let over = ContentRange::new(u64::MAX - 10, 11);
    assert_eq!((over.data_offset(), over.size()), (u64::MAX - 10, 11));
    assert_eq!(over.locate(0, 11).unwrap(), u64::MAX - 10);
    assert_eq!(over.locate(10, 1).unwrap(), u64::MAX);
    assert_eq!(over.locate(11, 0).unwrap(), u64::MAX);
    assert!(matches!(over.locate(11, 1), Err(ZipError::OutOfBounds)));
    let far = ContentRange::new(u64::MAX, u64::MAX);
    assert_eq!(far.locate(0, 1).unwrap(), u64::MAX);
    assert_eq!(far.locate(1, 1).unwrap(), u64::MAX);
    assert_eq!(far.locate(u64::MAX - 1, 1).unwrap(), u64::MAX);
    assert!(matches!(far.locate(u64::MAX, 1), Err(ZipError::OutOfBounds)));
}

fn header(name_len: u16, extra_len: u16, comment_len: u16) -> CentralHeader {
    CentralHeader {
        compression_method: 0,
        uncompressed_size: 10,
        name_len,
        extra_len,
        comment_len,
        local_header_offset: 20,
    }
}

#[test]
fn parts_of_a_record_lie_one_behind_the_other() {
    let h = header(5, 9, 3);
    assert_eq!((h.name_at(100), h.extra_at(100), h.next_at(100)), (146, 151, 163));
    let h = header(0, 0, 0);
    assert_eq!((h.name_at(0), h.extra_at(0), h.next_at(0)), (46, 46, 46));
    let h = header(0xFFFF, 0xFFFF, 0xFFFF);
    assert_eq!(h.next_at(1 << 32), (1u64 << 32) + 46 + 3 * 65535);
    let h = header(4, 4, 4);
    assert_eq!(h.next_at(u64::MAX - 58), u64::MAX);
    assert_eq!(h.next_at(u64::MAX - 57), u64::MAX);
    assert_eq!((h.name_at(u64::MAX - 50), h.extra_at(u64::MAX - 50)), (u64::MAX - 4, u64::MAX));
    assert_eq!((h.name_at(u64::MAX), h.extra_at(u64::MAX), h.next_at(u64::MAX)), (u64::MAX, u64::MAX, u64::MAX));
}

#[test]
fn entry_is_made_of_the_header_the_name_and_the_extra_field() {
    let mut h = header(3, 0, 0);
    h.compression_method = 8;
    let entry = h.entry(b"a/b", &[]);
    assert_eq!(entry.name, "a/b");
    assert_eq!(
        (entry.uncompressed_size, entry.offset, entry.compression_method),
        (10, 20, 8)
    );
    h.uncompressed_size = u32::MAX;
    let mut extra = vec![1, 0, 8, 0];
    extra.extend_from_slice(&(1u64 << 35).to_le_bytes());
    let entry = h.entry(&[0xC3, 0xA9, 0x80, b'/'], &extra);
    assert_eq!(entry.name, "\u{e9}\u{FFFD}/");
    assert_eq!((entry.uncompressed_size, entry.offset), (1 << 35, 20));
    let entry = h.entry(&[], &[]);
    assert_eq!(entry.name, "");
    assert_eq!((entry.uncompressed_size, entry.offset), (0xFFFF_FFFF, 20));
}

#[test]
fn sentinel_offset_sends_to_the_zip64_records() {
    assert_eq!(legacy_directory(0, 0), Some((0, 0)));
    assert_eq!(legacy_directory(1234, 56), Some((1234, 56)));
    assert_eq!(legacy_directory(0xFFFF_FFFE, 0xFFFF), Some((0xFFFF_FFFE, 0xFFFF)));
    assert_eq!(legacy_directory(0xFFFF_FFFF, 0), None);
    assert_eq!(legacy_directory(0xFFFF_FFFF, 3), None);
    assert_eq!(legacy_directory(0xFFFF_FFFF, 0xFFFF), None);
}

#[test]
fn locator_stands_twenty_bytes_in_front_of_the_end_record() {
    assert_eq!(locator_offset(20).unwrap(), 0);
    assert_eq!(locator_offset(21).unwrap(), 1);
    assert_eq!(locator_offset(u64::MAX).unwrap(), u64::MAX - 20);
    for at in [0u64, 1, 19] {
        match locator_offset(at) {
            Err(ZipError::Format { structure, offset }) => {
                assert_eq!((structure, offset), (Structure::Zip64Locator, at));
            }
            _ => panic!("there is no room for a locator"),
        }
    }
}

#[test]
fn compressed_entry_is_refused_by_its_method() {
    let mut entry = ZipEntry {
        name: "a".to_string(),
        uncompressed_size: 1,
        offset: 2,
        compression_method: 0,
    };
    assert!(entry.require_stored().is_ok());
    for method in [1u16, 8, 99, 0xFFFF] {
        entry.compression_method = method;
        match entry.require_stored() {
            Err(ZipError::UnsupportedCompression { method: found, declared_in }) => {
                assert_eq!((found, declared_in), (method, Structure::CentralRecord));
            }
            _ => panic!("the entry is compressed"),
        }
    }
}
