use ziprand::{fetch, ZipEntry, ZipError, ZipIO, ZipReader};

/// A source that fails every call. The ghost items of the trait are never
/// called when the program runs: they get bodies that cannot be reached.
struct Broken;

impl ZipIO for Broken {
    fn bytes(&self) -> vstd::seq::Seq<u8> {
        unreachable!()
    }

    fn dependable(&self) -> bool {
        unreachable!()
    }

    fn lemma_addressable(&self) {
        unreachable!()
    }

    fn read_at(&self, offset: u64, buf: &mut [u8]) -> Result<(), eyre::Report> {
        Err(eyre::Report::msg(format!("no {} bytes at {}", buf.len(), offset)))
    }

    fn size(&self) -> Result<u64, eyre::Report> {
        Err(eyre::Report::msg("no size"))
    }
}

/// A source that knows its size and fails every read.
struct Unreadable(u64);

impl ZipIO for Unreadable {
    fn bytes(&self) -> vstd::seq::Seq<u8> {
        unreachable!()
    }

    fn dependable(&self) -> bool {
        unreachable!()
    }

    fn lemma_addressable(&self) {
        unreachable!()
    }

    fn read_at(&self, offset: u64, buf: &mut [u8]) -> Result<(), eyre::Report> {
        Err(eyre::Report::msg(format!("no {} bytes at {}", buf.len(), offset)))
    }

    fn size(&self) -> Result<u64, eyre::Report> {
        Ok(self.0)
    }
}

/// A source that is empty but for a few pieces: every other byte is zero.
struct Sparse {
    size: u64,
    pieces: Vec<(u64, Vec<u8>)>,
}

impl ZipIO for Sparse {
    fn bytes(&self) -> vstd::seq::Seq<u8> {
        unreachable!()
    }

    fn dependable(&self) -> bool {
        unreachable!()
    }

    fn lemma_addressable(&self) {
        unreachable!()
    }

    fn read_at(&self, offset: u64, buf: &mut [u8]) -> Result<(), eyre::Report> {
        let end = offset.checked_add(buf.len() as u64).filter(|end| *end <= self.size);
        if end.is_none() {
            return Err(eyre::Report::msg("past the end"));
        }
        for (i, byte) in buf.iter_mut().enumerate() {
            let at = offset + i as u64;
            *byte = 0;
            for (start, piece) in &self.pieces {
                if *start <= at && at - *start < piece.len() as u64 {
                    *byte = piece[(at - *start) as usize];
                }
            }
        }
        Ok(())
    }

    fn size(&self) -> Result<u64, eyre::Report> {
        Ok(self.size)
    }
}

fn message<T>(r: Result<T, ZipError>) -> String {
    match r {
        Err(ZipError::Io(report)) => format!("{}", report),
        Err(_) => panic!("the source failed"),
        Ok(_) => panic!("the source failed"),
    }
}

#[test]
fn fetch_returns_the_bytes_of_a_buffer() {
    let source: Vec<u8> = vec![10, 11, 12, 13, 14];
    assert_eq!(fetch(&source, 1, 3).unwrap(), vec![11, 12, 13]);
    assert_eq!(fetch(&source, 0, 5).unwrap(), vec![10, 11, 12, 13, 14]);
    assert_eq!(fetch(&source, 4, 1).unwrap(), vec![14]);
    assert_eq!(fetch(&source, 5, 0).unwrap(), Vec::<u8>::new());
    assert_eq!(fetch(&&source, 2, 2).unwrap(), vec![12, 13]);
}

#[test]
fn fetch_past_the_end_is_an_io_error() {
    let source: Vec<u8> = vec![10, 11, 12, 13, 14];
    assert_eq!(message(fetch(&source, 3, 3)), "Read beyond end of buffer");
    assert_eq!(message(fetch(&source, 5, 1)), "Read beyond end of buffer");
    assert_eq!(message(fetch(&source, 6, 0)), "Read beyond end of buffer");
    assert_eq!(message(fetch(&source, u64::MAX, 1)), "Read beyond end of buffer");
    assert_eq!(message(fetch(&Vec::<u8>::new(), 0, 1)), "Read beyond end of buffer");
}

#[test]
fn buffer_is_a_byte_source() {
    let source: Vec<u8> = vec![1, 2, 3];
    assert_eq!(ZipIO::size(&source).unwrap(), 3);
    assert_eq!(ZipIO::size(&&source).unwrap(), 3);
    assert_eq!(ZipIO::size(&Vec::<u8>::new()).unwrap(), 0);
    let mut buf = [9u8; 2];
    ZipIO::read_at(&source, 1, &mut buf).unwrap();
    assert_eq!(buf, [2, 3]);
    assert!(ZipIO::read_at(&source, 2, &mut buf).is_err());
    assert_eq!(buf, [2, 3]);
    ZipIO::read_at(&&source, 0, &mut buf).unwrap();
    assert_eq!(buf, [1, 2]);
    let mut none = [0u8; 0];
    ZipIO::read_at(&source, 3, &mut none).unwrap();
    assert!(ZipIO::read_at(&source, 4, &mut none).is_err());
}

#[test]
fn fetch_hands_on_the_failure_of_the_source() {
    assert_eq!(message(fetch(&Broken, 7, 3)), "no 3 bytes at 7");
    assert_eq!(message(fetch(&Broken, 0, 0)), "no 0 bytes at 0");
}

#[test]
fn reader_hands_on_the_failure_of_the_source() {
    let reader = ZipReader::new(Broken);
    assert_eq!(message(reader.find_eocd()), "no size");
    assert_eq!(message(reader.list_entries()), "no size");
    assert_eq!(message(reader.get_central_directory_info()), "no size");
    assert_eq!(message(reader.find_entry("a")), "no size");
    assert_eq!(message(reader.find_entries(|_| true)), "no size");
    assert_eq!(message(reader.read_central_directory_entry(9)), "no 46 bytes at 9");
    assert_eq!(message(reader.read_zip64_eocd(100)), "no 20 bytes at 80");
    let entry =
        ZipEntry { name: "a".to_string(), uncompressed_size: 1, offset: 5, compression_method: 0 };
    assert_eq!(message(reader.get_data_offset(&entry)), "no 30 bytes at 5");
    assert_eq!(message(reader.open_entry(&entry)), "no 30 bytes at 5");
}

#[test]
fn search_reads_the_last_window_first() {
    assert_eq!(message(ZipReader::new(Unreadable(100000)).find_eocd()), "no 8192 bytes at 91808");
    assert_eq!(message(ZipReader::new(Unreadable(5000)).find_eocd()), "no 5000 bytes at 0");
    assert_eq!(message(ZipReader::new(Unreadable(1)).find_eocd()), "no 1 bytes at 0");
    assert!(matches!(
        ZipReader::new(Unreadable(0)).find_eocd(),
        Err(ZipError::NotFound { .. })
    ));
}

#[test]
fn compressed_entry_is_refused_without_a_read() {
    let reader = ZipReader::new(Broken);
    let entry =
        ZipEntry { name: "a".to_string(), uncompressed_size: 1, offset: 5, compression_method: 8 };
    assert!(matches!(
        reader.open_entry(&entry),
        Err(ZipError::UnsupportedCompression { method: 8, .. })
    ));
}

#[test]
fn zip64_record_at_an_offset_that_spells_the_locator_signature() {
    let record_at: u64 = 0x0706_4B50;
    let mut record = vec![0u8; 56];
    record[0..4].copy_from_slice(&[0x50, 0x4B, 0x06, 0x06]);
    record[32..40].copy_from_slice(&3u64.to_le_bytes());
    record[48..56].copy_from_slice(&0x1_0000_0000u64.to_le_bytes());
    let mut locator = vec![0u8; 20];
    locator[0..4].copy_from_slice(&[0x50, 0x4B, 0x06, 0x07]);
    locator[8..16].copy_from_slice(&record_at.to_le_bytes());
    assert_eq!(&locator[8..12], &[0x50, 0x4B, 0x06, 0x07]);
    let mut end = vec![0u8; 22];
    end[0..4].copy_from_slice(&[0x50, 0x4B, 0x05, 0x06]);
    end[10..12].copy_from_slice(&7u16.to_le_bytes());
    end[16..20].copy_from_slice(&[0xFF; 4]);
    let source = Sparse {
        size: record_at + 98,
        pieces: vec![(record_at, record), (record_at + 56, locator), (record_at + 76, end)],
    };
    let reader = ZipReader::new(source);
    assert_eq!(reader.find_eocd().unwrap(), (record_at + 76, 7));
    assert_eq!(reader.read_zip64_eocd(record_at + 76).unwrap(), (0x1_0000_0000, 3));
    assert_eq!(reader.get_central_directory_info().unwrap(), (0x1_0000_0000, 3));
}
