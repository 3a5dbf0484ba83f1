use qcow2::io::Cursor;
use qcow2::io::Io;
use qcow2::io::PreadInt;
use qcow2::io::ReadInt;
use qcow2::Pread;

fn data() -> Vec<u8> {
    (0u8..100).collect()
}

#[test]
fn a_vector_is_read_at_a_position() {
    let v = data();
    let mut buf = [0xee; 10];
    assert!(matches!(v.pread(&mut buf, 5), Ok(10)));
    assert_eq!(buf, [5, 6, 7, 8, 9, 10, 11, 12, 13, 14]);
    let mut buf = [0xee; 10];
    assert!(matches!(v.pread(&mut buf, 95), Ok(5)));
    assert_eq!(buf, [95, 96, 97, 98, 99, 0xee, 0xee, 0xee, 0xee, 0xee]);
    let mut buf = [0xee; 4];
    assert!(matches!(v.pread(&mut buf, 100), Ok(0)));
    assert!(matches!(v.pread(&mut buf, u64::MAX), Ok(0)));
    assert_eq!(buf, [0xee; 4]);
    let mut none = [0u8; 0];
    assert!(matches!(v.pread(&mut none, 3), Ok(0)));
}

#[test]
fn a_vector_fills_a_buffer_or_fails() {
    let v = data();
    let mut buf = [0xee; 10];
    assert!(v.pread_exact(&mut buf, 90).is_ok());
    assert_eq!(buf, [90, 91, 92, 93, 94, 95, 96, 97, 98, 99]);
    let mut buf = [0xee; 10];
    let err = v.pread_exact(&mut buf, 91).err().unwrap();
    assert_eq!(err.kind(), std::io::ErrorKind::UnexpectedEof);
    assert!(v.pread_exact(&mut buf, 1000).is_err());
    let mut none = [0u8; 0];
    assert!(v.pread_exact(&mut none, 100).is_ok());
    assert!(v.pread_exact(&mut none, 1000).is_ok());
}

#[test]
fn integers_are_read_at_a_position() {
    let io = Io::new(vec![0x01, 0x02, 0x03, 0x04, 0x05, 0x06, 0x07, 0x08, 0x09]);
    assert!(matches!(io.pread_uint(1, 0), Ok(0x01)));
    assert!(matches!(io.pread_uint(2, 0), Ok(0x0102)));
    assert!(matches!(io.pread_uint(3, 1), Ok(0x020304)));
    assert!(matches!(io.pread_uint(4, 5), Ok(0x06070809)));
    assert!(matches!(io.pread_uint(8, 0), Ok(0x0102030405060708)));
    assert!(matches!(io.pread_u64(1), Ok(0x0203040506070809)));
    assert!(io.pread_u64(2).is_err());
    assert!(io.pread_uint(1, 9).is_err());
    assert!(matches!(io.pread_uint(1, 8), Ok(9)));
}

#[test]
fn bytes_are_read_at_a_position() {
    let io = Io::new(data());
    let mut buf = [0u8; 3];
    assert!(io.read_exact_at(97, &mut buf).is_ok());
    assert_eq!(buf, [97, 98, 99]);
    assert!(io.read_exact_at(98, &mut buf).is_err());
}

#[test]
fn a_cursor_reads_in_sequence() {
    let io = Io::new(vec![
        0xde, 0xad, 0xbe, 0xef, 0x00, 0x00, 0x00, 0x00, 0x00, 0x00, 0x01, 0x00, 0xaa, 0xbb, 0xcc,
    ]);
    let mut cur = Cursor::new(&io);
    assert_eq!(cur.position(), 0);
    assert!(matches!(cur.read_u32(), Ok(0xdeadbeef)));
    assert_eq!(cur.position(), 4);
    assert!(matches!(cur.read_u64(), Ok(0x100)));
    assert_eq!(cur.position(), 12);
    assert!(matches!(cur.read_uint(2), Ok(0xaabb)));
    assert_eq!(cur.position(), 14);
    // A failed read moves nothing.
    assert!(cur.read_u32().is_err());
    assert_eq!(cur.position(), 14);
    assert!(matches!(cur.read_uint(1), Ok(0xcc)));
    assert!(cur.read_uint(1).is_err());
    cur.set_position(1);
    let mut buf = [0u8; 3];
    assert!(cur.read_exact(&mut buf).is_ok());
    assert_eq!(buf, [0xad, 0xbe, 0xef]);
    assert_eq!(cur.position(), 4);
    cur.set_position(13);
    assert!(cur.read_exact(&mut buf).is_err());
    assert_eq!(cur.position(), 13);
}

/// A source in memory that counts its reads and can be told to fail.
struct Counting {
    data: Vec<u8>,
    reads: std::cell::Cell<usize>,
    fail: std::cell::Cell<bool>,
}

impl Counting {
    fn new(data: Vec<u8>) -> Counting {
        Counting { data, reads: std::cell::Cell::new(0), fail: std::cell::Cell::new(false) }
    }
}

impl Pread for Counting {
    fn pread(&self, buf: &mut [u8], pos: u64) -> std::io::Result<usize> {
        self.data.pread(buf, pos)
    }

    fn pread_exact(&self, buf: &mut [u8], pos: u64) -> std::io::Result<()> {
        self.reads.set(self.reads.get() + 1);
        if self.fail.get() {
            return Err(std::io::Error::new(std::io::ErrorKind::Other, "told to fail"));
        }
        self.data.pread_exact(buf, pos)
    }
}

fn put32(buf: &mut [u8], at: usize, v: u32) {
    buf[at..at + 4].copy_from_slice(&v.to_be_bytes());
}

fn put64(buf: &mut [u8], at: usize, v: u64) {
    buf[at..at + 8].copy_from_slice(&v.to_be_bytes());
}

/// An image with clusters of 512 bytes and `tables` L2 tables, each of
/// which maps its first cluster to a data cluster filled with the table's
/// number plus one. The L2 table number `t` is cluster `2 + 2 * t`.
fn image(tables: u64) -> Vec<u8> {
    let mut img = vec![0u8; 512 * (2 + 2 * tables as usize)];
    put32(&mut img, 0, 0x514649fb);
    put32(&mut img, 4, 3);
    put32(&mut img, 20, 9);
    put64(&mut img, 24, 64 * 512 * tables);
    put32(&mut img, 36, tables as u32);
    put64(&mut img, 40, 512);
    put32(&mut img, 96, 4);
    put32(&mut img, 100, 104);
    for t in 0..tables as usize {
        let table = 512 * (2 + 2 * t);
        let data = table + 512;
        put64(&mut img, 512 + t * 8, table as u64);
        put64(&mut img, table, data as u64);
        for b in img[data..data + 512].iter_mut() {
            *b = t as u8 + 1;
        }
    }
    img
}

/// How many reads of the source a read of four bytes at the start of the
/// table number `t` takes, which gives the bytes expected.
fn reads_for(reader: &mut qcow2::Reader<Counting>, t: u64) -> usize {
    let mut buf = [0u8; 4];
    let reads = source_reads(reader);
    assert!(matches!(reader.read_at(t * 64 * 512, &mut buf), Ok(4)));
    assert_eq!(buf, [t as u8 + 1; 4]);
    source_reads(reader) - reads
}

fn source_reads(reader: &qcow2::Reader<Counting>) -> usize {
    reader.q.source().reads.get()
}

#[test]
fn a_table_in_the_cache_is_not_read_again() {
    let mut q = qcow2::Qcow2::open(Counting::new(image(4))).ok().unwrap();
    let mut reader = q.reader().ok().unwrap();
    // The table and the data.
    assert_eq!(reads_for(&mut reader, 0), 2);
    // The data only.
    assert_eq!(reads_for(&mut reader, 0), 1);
    assert_eq!(reads_for(&mut reader, 1), 2);
    assert_eq!(reads_for(&mut reader, 0), 1);
    assert_eq!(reads_for(&mut reader, 1), 1);
}

#[test]
fn the_cache_holds_32_tables() {
    let mut q = qcow2::Qcow2::open(Counting::new(image(40))).ok().unwrap();
    let mut reader = q.reader().ok().unwrap();
    for t in 0..32 {
        assert_eq!(reads_for(&mut reader, t), 2);
    }
    for t in 0..32 {
        assert_eq!(reads_for(&mut reader, t), 1);
    }
    // One more table, and the one that was used longest ago has left.
    assert_eq!(reads_for(&mut reader, 32), 2);
    assert_eq!(reads_for(&mut reader, 1), 1);
    assert_eq!(reads_for(&mut reader, 31), 1);
    assert_eq!(reads_for(&mut reader, 32), 1);
    assert_eq!(reads_for(&mut reader, 0), 2);
}

#[test]
fn a_use_keeps_a_table_in_the_cache() {
    let mut q = qcow2::Qcow2::open(Counting::new(image(40))).ok().unwrap();
    let mut reader = q.reader().ok().unwrap();
    for t in 0..32 {
        assert_eq!(reads_for(&mut reader, t), 2);
    }
    // Table 0 is used again, so table 1 is now the one used longest ago.
    assert_eq!(reads_for(&mut reader, 0), 1);
    assert_eq!(reads_for(&mut reader, 32), 2);
    assert_eq!(reads_for(&mut reader, 0), 1);
    assert_eq!(reads_for(&mut reader, 1), 2);
    // That put table 2 out.
    assert_eq!(reads_for(&mut reader, 3), 1);
    assert_eq!(reads_for(&mut reader, 2), 2);
}

#[test]
fn the_cache_is_shared_by_the_readers_of_an_image() {
    let mut q = qcow2::Qcow2::open(Counting::new(image(4))).ok().unwrap();
    {
        let mut reader = q.reader().ok().unwrap();
        assert_eq!(reads_for(&mut reader, 2), 2);
    }
    let mut reader = q.reader().ok().unwrap();
    assert_eq!(reads_for(&mut reader, 2), 1);
}

#[test]
fn a_failed_read_of_a_table_leaves_the_cache_alone() {
    let mut q = qcow2::Qcow2::open(Counting::new(image(4))).ok().unwrap();
    let mut reader = q.reader().ok().unwrap();
    reader.q.source().fail.set(true);
    let mut buf = [0u8; 4];
    assert!(matches!(reader.read_at(0, &mut buf), Err(qcow2::Error::Io(_))));
    reader.q.source().fail.set(false);
    assert_eq!(reads_for(&mut reader, 0), 2);
    assert_eq!(reads_for(&mut reader, 0), 1);
    // A failed read of the data does not put the table out.
    reader.q.source().fail.set(true);
    assert!(matches!(reader.read_at(0, &mut buf), Err(qcow2::Error::Io(_))));
    reader.q.source().fail.set(false);
    assert_eq!(reads_for(&mut reader, 0), 1);
}

#[test]
fn a_source_that_fails_fails_the_open() {
    let source = Counting::new(image(1));
    source.fail.set(true);
    match qcow2::Qcow2::open(source) {
        Err(qcow2::Error::Io(e)) => assert_eq!(e.to_string(), "told to fail"),
        _ => panic!("the image was opened"),
    }
}
