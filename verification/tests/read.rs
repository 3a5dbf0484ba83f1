use qcow2::entry::L1Entry;
use qcow2::entry::L2Entry;
use qcow2::Error;
use qcow2::Qcow2;

fn put32(buf: &mut [u8], at: usize, v: u32) {
    buf[at..at + 4].copy_from_slice(&v.to_be_bytes());
}

fn put64(buf: &mut [u8], at: usize, v: u64) {
    buf[at..at + 8].copy_from_slice(&v.to_be_bytes());
}

/// An image in memory, laid out cluster by cluster: the header in cluster
/// 0, the L1 table in cluster 1, then whatever the test adds.
struct Image {
    bits: u32,
    bytes: Vec<u8>,
}

impl Image {
    fn new(bits: u32, size: u64) -> Image {
        let cluster = 1usize << bits;
        let mut bytes = vec![0u8; 2 * cluster];
        let blocks = (size + cluster as u64 - 1) / cluster as u64;
        let l2_entries = cluster as u64 / 8;
        let l1_size = (blocks + l2_entries - 1) / l2_entries;
        assert!(l1_size * 8 <= cluster as u64);
        put32(&mut bytes, 0, 0x514649fb);
        put32(&mut bytes, 4, 3);
        put32(&mut bytes, 20, bits);
        put64(&mut bytes, 24, size);
        put32(&mut bytes, 36, l1_size as u32);
        put64(&mut bytes, 40, cluster as u64);
        put32(&mut bytes, 96, 4);
        put32(&mut bytes, 100, 104);
        Image { bits, bytes }
    }

    fn cluster(&self) -> usize {
        1 << self.bits
    }

    /// Adds a cluster filled with `fill` and returns its offset.
    fn add_cluster(&mut self, fill: u8) -> u64 {
        let at = self.bytes.len();
        self.bytes.resize(at + self.cluster(), fill);
        at as u64
    }

    fn set_l1(&mut self, idx: usize, entry: u64) {
        let at = self.cluster() + idx * 8;
        put64(&mut self.bytes, at, entry);
    }

    fn set_l2(&mut self, table: u64, idx: usize, entry: u64) {
        put64(&mut self.bytes, table as usize + idx * 8, entry);
    }

    /// Maps the guest cluster `block` to a new data cluster filled with
    /// `fill`, with a new L2 table where the block has none yet, and returns
    /// the data cluster's offset.
    fn map(&mut self, block: u64, fill: u8) -> u64 {
        let l2_entries = self.cluster() as u64 / 8;
        let l1_idx = (block / l2_entries) as usize;
        let l2_idx = (block % l2_entries) as usize;
        let at = self.cluster() + l1_idx * 8;
        let mut table = u64::from_be_bytes(self.bytes[at..at + 8].try_into().unwrap());
        if table == 0 {
            table = self.add_cluster(0);
            self.set_l1(l1_idx, table);
        }
        let data = self.add_cluster(fill);
        self.set_l2(table, l2_idx, data);
        data
    }

    fn open(self) -> Qcow2<Vec<u8>> {
        match Qcow2::open(self.bytes) {
            Ok(q) => q,
            Err(e) => panic!("{}", e.to_string()),
        }
    }
}

fn read(q: &mut Qcow2<Vec<u8>>, pos: u64, buf: &mut [u8]) -> Result<usize, Error> {
    let mut reader = match q.reader() {
        Ok(r) => r,
        Err(e) => panic!("{}", e.to_string()),
    };
    reader.read_at(pos, buf)
}

fn read_ok(q: &mut Qcow2<Vec<u8>>, pos: u64, len: usize) -> Vec<u8> {
    let mut buf = vec![0xee; len];
    match read(q, pos, &mut buf) {
        Ok(n) => {
            assert!(buf[n..].iter().all(|&b| b == 0xee));
            buf.truncate(n);
            buf
        }
        Err(e) => panic!("{}", e.to_string()),
    }
}

#[test]
fn basic_read() {
    let size: u64 = 1024 * 1024 * 200 + 65536;
    let mut img = Image::new(16, size);
    let data = img.map(1024 * 1024 * 200 / 65536, 0) as usize;
    img.bytes[data..data + 11].copy_from_slice(b"Lorem ipsum");
    let mut qcow = img.open();
    let mut reader = qcow.reader().unwrap();
    let mut buf = [0; 11];
    let n = reader.read_at(1024 * 1024 * 200, &mut buf).unwrap();
    assert_eq!(n, 11);
    let s = std::str::from_utf8(&buf).unwrap();
    assert_eq!(s, "Lorem ipsum");
}

#[test]
fn reads_stop_at_the_end_of_the_guest() {
    let size: u64 = 200 * 1024 * 1024 + 1;
    let mut q = Image::new(16, size).open();
    assert_eq!(q.guest_size(), size);
    let mut one = [0xee; 1];
    assert!(matches!(read(&mut q, size - 1, &mut one), Ok(1)));
    assert_eq!(one, [0]);
    let mut one = [0xee; 1];
    assert!(matches!(read(&mut q, size, &mut one), Ok(0)));
    assert_eq!(one, [0xee]);
    let mut ten = [0xee; 10];
    assert!(matches!(read(&mut q, size - 5, &mut ten), Ok(5)));
    assert_eq!(ten, [0, 0, 0, 0, 0, 0xee, 0xee, 0xee, 0xee, 0xee]);
}

#[test]
fn reads_behind_the_end_give_nothing() {
    let mut q = Image::new(16, 1 << 20).open();
    for pos in [1u64 << 20, (1 << 20) + 1, 1 << 40, u64::MAX] {
        let mut buf = [0xee; 64];
        assert!(matches!(read(&mut q, pos, &mut buf), Ok(0)));
        assert_eq!(buf, [0xee; 64]);
    }
}

#[test]
fn an_empty_buffer_reads_nothing() {
    let mut q = Image::new(16, 1 << 20).open();
    let mut buf = [0u8; 0];
    assert!(matches!(read(&mut q, 0, &mut buf), Ok(0)));
    assert!(matches!(read(&mut q, 12345, &mut buf), Ok(0)));
}

#[test]
fn a_fresh_image_reads_as_zeros() {
    let mut q = Image::new(16, 1 << 20).open();
    assert_eq!(read_ok(&mut q, 0, 4096), vec![0u8; 4096]);
    assert_eq!(read_ok(&mut q, 65000, 70000), vec![0u8; 70000]);
    assert_eq!(read_ok(&mut q, 0, 1 << 20), vec![0u8; 1 << 20]);
}

#[test]
fn an_unallocated_cluster_reads_as_zeros() {
    let mut img = Image::new(9, 64 * 512 * 3);
    img.map(0, 0x11);
    img.map(2, 0x22);
    let mut q = img.open();
    // Block 1 has an L2 table but no cluster; blocks 64.. have no table.
    assert_eq!(read_ok(&mut q, 512, 512), vec![0u8; 512]);
    assert_eq!(read_ok(&mut q, 64 * 512, 2048), vec![0u8; 2048]);
    let got = read_ok(&mut q, 0, 3 * 512);
    assert_eq!(&got[..512], &[0x11; 512][..]);
    assert_eq!(&got[512..1024], &[0u8; 512][..]);
    assert_eq!(&got[1024..], &[0x22; 512][..]);
}

#[test]
fn a_cluster_marked_as_zeros_reads_as_zeros() {
    let mut img = Image::new(9, 4096);
    let data = img.map(0, 0x55);
    let table = 2 * 512;
    img.set_l2(table, 0, data | 1);
    let mut q = img.open();
    assert_eq!(read_ok(&mut q, 0, 512), vec![0u8; 512]);
}

#[test]
fn data_is_read_from_its_cluster() {
    let mut img = Image::new(9, 8192);
    let data = img.map(3, 0) as usize;
    for i in 0..512 {
        img.bytes[data + i] = (i % 251) as u8;
    }
    let mut q = img.open();
    let all = read_ok(&mut q, 3 * 512, 512);
    for i in 0..512 {
        assert_eq!(all[i], (i % 251) as u8);
    }
    assert_eq!(read_ok(&mut q, 3 * 512 + 100, 3), vec![100, 101, 102]);
    assert_eq!(read_ok(&mut q, 3 * 512 + 511, 2), vec![(511 % 251) as u8, 0]);
    assert_eq!(read_ok(&mut q, 3 * 512 - 1, 2), vec![0, 0]);
}

#[test]
fn the_copy_on_write_flag_is_ignored() {
    let mut img = Image::new(9, 4096);
    let data = img.map(0, 0x77);
    img.set_l1(0, 2 * 512 | 1 << 63);
    img.set_l2(2 * 512, 0, data | 1 << 63);
    let mut q = img.open();
    assert_eq!(read_ok(&mut q, 0, 4), vec![0x77; 4]);
}

#[test]
fn a_read_spans_clusters_and_tables() {
    let mut img = Image::new(9, 64 * 512 * 2);
    img.map(62, 1);
    img.map(63, 2);
    img.map(64, 3);
    img.map(65, 4);
    let mut q = img.open();
    let got = read_ok(&mut q, 62 * 512 + 500, 12 + 512 + 512 + 7);
    assert_eq!(&got[..12], &[1; 12][..]);
    assert_eq!(&got[12..524], &[2; 512][..]);
    assert_eq!(&got[524..1036], &[3; 512][..]);
    assert_eq!(&got[1036..], &[4; 7][..]);
}

#[test]
fn reading_twice_gives_the_same_bytes() {
    let mut img = Image::new(9, 64 * 512);
    for b in 0..10 {
        img.map(b * 3, b as u8 + 1);
    }
    let mut q = img.open();
    let first = read_ok(&mut q, 100, 20000);
    let second = read_ok(&mut q, 100, 20000);
    assert_eq!(first, second);
    let mut reader = q.reader().unwrap();
    let mut a = vec![0u8; 5000];
    let mut b = vec![0xffu8; 5000];
    assert!(matches!(reader.read_at(700, &mut a), Ok(5000)));
    assert!(matches!(reader.read_at(700, &mut b), Ok(5000)));
    assert_eq!(a, b);
}

#[test]
fn a_read_is_the_join_of_its_parts() {
    let mut img = Image::new(9, 5000);
    for b in 0..10 {
        img.map(b, 0);
    }
    for (i, byte) in img.bytes[3 * 512..].iter_mut().enumerate() {
        *byte = (i * 7 % 256) as u8;
    }
    let mut q = img.open();
    for (pos, len) in [(0u64, 5000usize), (300, 2000), (4000, 3000), (511, 514)] {
        let whole = read_ok(&mut q, pos, len);
        for cut in [0usize, 1, 212, 213, 512, 1000, len] {
            if cut > len {
                continue;
            }
            let mut joined = read_ok(&mut q, pos, cut);
            joined.extend(read_ok(&mut q, pos + cut as u64, len - cut));
            assert_eq!(whole, joined, "pos {} len {} cut {}", pos, len, cut);
        }
    }
}

#[test]
fn a_reserved_bit_in_an_l1_entry_is_refused() {
    let mut img = Image::new(9, 4096);
    img.map(0, 0x11);
    img.set_l1(0, 2 * 512 | 1);
    let mut q = img.open();
    let mut buf = [0u8; 16];
    match read(&mut q, 0, &mut buf) {
        Err(Error::FileFormat(s)) => assert_eq!(s, "reserved bit used in L1 entry"),
        _ => panic!("the entry was accepted"),
    }
}

#[test]
fn every_reserved_bit_of_an_l1_entry_is_refused() {
    for bit in (0..9).chain(56..63) {
        let mut img = Image::new(9, 4096);
        img.map(0, 0x11);
        img.set_l1(0, 2 * 512 | 1 << bit);
        let mut q = img.open();
        let mut buf = [0u8; 16];
        assert!(matches!(read(&mut q, 0, &mut buf), Err(Error::FileFormat(_))), "bit {}", bit);
    }
}

#[test]
fn a_reserved_bit_in_an_l2_entry_is_refused() {
    for bit in (1..9).chain(56..62) {
        let mut img = Image::new(9, 4096);
        let data = img.map(0, 0x11);
        img.set_l2(2 * 512, 0, data | 1 << bit);
        let mut q = img.open();
        let mut buf = [0u8; 16];
        match read(&mut q, 0, &mut buf) {
            Err(Error::FileFormat(s)) => assert_eq!(s, "reserved bit used in L2 entry"),
            _ => panic!("bit {} was accepted", bit),
        }
    }
}

#[test]
fn a_compressed_cluster_is_not_supported() {
    let mut img = Image::new(9, 4096);
    let data = img.map(1, 0x11);
    img.set_l2(2 * 512, 1, data | 1 << 62);
    let mut q = img.open();
    let mut buf = [0u8; 16];
    match read(&mut q, 512, &mut buf) {
        Err(Error::UnsupportedFeature(s)) => assert_eq!(s, "compressed blocks"),
        _ => panic!("a compressed cluster was read"),
    }
    // The cluster before it can be read, a read into it cannot.
    assert_eq!(read_ok(&mut q, 0, 512), vec![0u8; 512]);
    let mut buf = [0u8; 513];
    assert!(matches!(read(&mut q, 0, &mut buf), Err(Error::UnsupportedFeature(_))));
}

#[test]
fn a_table_or_cluster_outside_the_file_fails_as_a_read() {
    let mut img = Image::new(9, 4096);
    let end = img.bytes.len() as u64;
    img.set_l1(0, end);
    let mut q = img.open();
    let mut buf = [0u8; 16];
    assert!(matches!(read(&mut q, 0, &mut buf), Err(Error::Io(_))));

    let mut img = Image::new(9, 4096);
    img.map(0, 0x11);
    let end = img.bytes.len() as u64;
    img.set_l2(2 * 512, 1, end);
    img.bytes.extend([0x33; 100]);
    let mut q = img.open();
    assert_eq!(read_ok(&mut q, 512, 100), vec![0x33; 100]);
    let mut buf = [0u8; 101];
    assert!(matches!(read(&mut q, 512, &mut buf), Err(Error::Io(_))));
}

#[test]
fn an_l1_table_outside_the_file_fails_the_reader() {
    let mut img = Image::new(9, 4096);
    img.bytes.truncate(512 + 7);
    let mut q = img.open();
    assert!(matches!(q.reader(), Err(Error::Io(_))));
    let mut img = Image::new(9, 4096);
    img.bytes.truncate(512 + 8);
    let mut q = img.open();
    assert!(q.reader().is_ok());
}

#[test]
fn the_reader_holds_the_l1_table() {
    let mut img = Image::new(9, 64 * 512 * 3);
    img.map(0, 1);
    img.map(64, 2);
    let expect = img.bytes[512..512 + 24].to_vec();
    let mut q = img.open();
    let reader = q.reader().unwrap();
    assert_eq!(reader.l1, expect);
    assert!(matches!(reader.size(), Ok(Some(98304))));
}

#[test]
fn more_tables_than_the_cache_holds_are_read_right() {
    // 40 L2 tables, of which the cache holds 32 at a time.
    let tables = 40u64;
    let mut img = Image::new(9, 64 * 512 * tables);
    for t in 0..tables {
        img.map(t * 64, t as u8 + 1);
        img.map(t * 64 + 63, t as u8 + 101);
    }
    let mut q = img.open();
    let mut reader = q.reader().unwrap();
    for round in 0..3 {
        for t in 0..tables {
            let mut buf = [0u8; 4];
            assert!(matches!(reader.read_at(t * 64 * 512, &mut buf), Ok(4)));
            assert_eq!(buf, [t as u8 + 1; 4], "round {} table {}", round, t);
            assert!(matches!(reader.read_at((t * 64 + 63) * 512 + 508, &mut buf), Ok(4)));
            assert_eq!(buf, [t as u8 + 101; 4], "round {} table {}", round, t);
        }
        for t in (0..tables).rev() {
            let mut buf = [0u8; 4];
            assert!(matches!(reader.read_at(t * 64 * 512 + 7, &mut buf), Ok(4)));
            assert_eq!(buf, [t as u8 + 1; 4]);
        }
    }
    let whole_len = (64 * 512 * tables) as usize;
    let mut whole = vec![0xee; whole_len];
    assert!(matches!(reader.read_at(0, &mut whole), Ok(n) if n == whole_len));
    for t in 0..tables as usize {
        assert_eq!(whole[t * 64 * 512], t as u8 + 1);
        assert_eq!(whole[t * 64 * 512 + 512], 0);
        assert_eq!(whole[(t * 64 + 63) * 512], t as u8 + 101);
    }
}

#[test]
fn l1_entries_are_read_from_their_bits() {
    assert!(matches!(L1Entry::parse(0), Ok(L1Entry::Empty)));
    assert!(matches!(L1Entry::parse(1 << 63), Ok(L1Entry::Empty)));
    assert!(matches!(
        L1Entry::parse(0x30000),
        Ok(L1Entry::Standard { pos: 0x30000, cow: false })
    ));
    assert!(matches!(
        L1Entry::parse(1 << 63 | 0x200),
        Ok(L1Entry::Standard { pos: 0x200, cow: true })
    ));
    assert!(matches!(
        L1Entry::parse(0x00ff_ffff_ffff_fe00),
        Ok(L1Entry::Standard { pos: 0x00ff_ffff_ffff_fe00, cow: false })
    ));
    assert!(matches!(L1Entry::parse(0x100), Err(Error::FileFormat(_))));
    assert!(matches!(L1Entry::parse(1 << 56), Err(Error::FileFormat(_))));
    assert!(matches!(L1Entry::parse(1 << 62), Err(Error::FileFormat(_))));
}

#[test]
fn l2_entries_are_read_from_their_bits() {
    assert!(matches!(L2Entry::parse(0, 16), Ok(L2Entry::Empty)));
    assert!(matches!(L2Entry::parse(1, 16), Ok(L2Entry::Empty)));
    assert!(matches!(L2Entry::parse(1 << 63, 16), Ok(L2Entry::Empty)));
    assert!(matches!(
        L2Entry::parse(0x50000, 16),
        Ok(L2Entry::Standard { pos: 0x50000, cow: false, zero: false })
    ));
    assert!(matches!(
        L2Entry::parse(1 << 63 | 0x50000 | 1, 16),
        Ok(L2Entry::Standard { pos: 0x50000, cow: true, zero: true })
    ));
    assert!(matches!(L2Entry::parse(0x50002, 16), Err(Error::FileFormat(_))));
    assert!(matches!(L2Entry::parse(0x50100, 16), Err(Error::FileFormat(_))));
    assert!(matches!(L2Entry::parse(1 << 61, 16), Err(Error::FileFormat(_))));
}

#[test]
fn compressed_l2_entries_split_into_offset_and_size() {
    // With clusters of 2^16 bytes the offset has 46 bits.
    let entry = 1 << 62 | 3 << 46 | 0x1234;
    assert!(matches!(
        L2Entry::parse(entry, 16),
        Ok(L2Entry::Compressed { pos: 0x1234, cow: false, size: 1536 })
    ));
    let entry = 1 << 63 | 1 << 62 | (1 << 46) - 1;
    assert!(matches!(
        L2Entry::parse(entry, 16),
        Ok(L2Entry::Compressed { pos: 0x3fff_ffff_ffff, cow: true, size: 0 })
    ));
    // With clusters of 2^9 bytes the offset has 53 bits.
    let entry = 1 << 62 | 5 << 53 | 1 << 52;
    assert!(matches!(
        L2Entry::parse(entry, 9),
        Ok(L2Entry::Compressed { pos: 0x10_0000_0000_0000, cow: false, size: 2560 })
    ));
    // The reserved bits mean nothing in a compressed entry.
    assert!(matches!(L2Entry::parse(1 << 62 | 0xff, 22), Ok(L2Entry::Compressed { .. })));
}
