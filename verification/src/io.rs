//! Big-endian integers, read from a source at a position or in sequence.
//! Every integer in an image is stored most significant byte first.

use crate::pread::Pread;
use vstd::prelude::*;

verus! {

/// The number that the bytes `s` spell, most significant byte first.
pub open spec fn be_value(s: Seq<u8>) -> nat
    decreases s.len(),
{
    if s.len() == 0 {
        0
    } else {
        be_value(s.drop_last()) * 256 + s.last() as nat
    }
}

/// Four bytes spell a number below 2^32, eight bytes one below 2^64.
pub proof fn lemma_be_value_bound(s: Seq<u8>)
    requires
        s.len() <= 8,
    ensures
        s.len() <= 4 ==> be_value(s) <= u32::MAX,
        be_value(s) <= u64::MAX,
{
    lemma_be_value_below(s);
}

proof fn lemma_be_value_below(s: Seq<u8>)
    requires
        s.len() <= 8,
    ensures
        s.len() == 0 ==> be_value(s) == 0,
        s.len() == 1 ==> be_value(s) < 0x100,
        s.len() == 2 ==> be_value(s) < 0x1_0000,
        s.len() == 3 ==> be_value(s) < 0x100_0000,
        s.len() == 4 ==> be_value(s) < 0x1_0000_0000,
        s.len() == 5 ==> be_value(s) < 0x100_0000_0000,
        s.len() == 6 ==> be_value(s) < 0x1_0000_0000_0000,
        s.len() == 7 ==> be_value(s) < 0x100_0000_0000_0000,
        s.len() == 8 ==> be_value(s) < 0x1_0000_0000_0000_0000,
    decreases s.len(),
{
    if s.len() > 0 {
        lemma_be_value_below(s.drop_last());
    }
}

/// `byteorder::ByteOrder::read_uint` of `byteorder::BigEndian`: the number
/// that the first `nbytes` bytes of `buf` spell, most significant first.
#[verifier::external_body]
pub(crate) fn be_uint(buf: &[u8], nbytes: usize) -> (r: u64)
    requires
        1 <= nbytes <= 8,
        nbytes <= buf@.len(),
    ensures
        r == be_value(buf@.subrange(0, nbytes as int)),
{
    <byteorder::BigEndian as byteorder::ByteOrder>::read_uint(buf, nbytes)
}

/// `positioned_io::ByteIo::read_uint_at` on a byte slice, in big-endian
/// order: the number that the `nbytes` bytes of `src` from `pos` on spell,
/// or a failure where `src` does not hold them all.
#[verifier::external_body]
pub(crate) fn slice_uint_at(src: &[u8], pos: u64, nbytes: usize) -> (r: Result<u64, std::io::Error>)
    requires
        1 <= nbytes <= 8,
    ensures
        r is Ok <==> pos + nbytes <= src@.len(),
        r matches Ok(v) ==> v == be_value(src@.subrange(pos as int, pos + nbytes)),
{
    positioned_io::ByteIo::<&[u8], byteorder::BigEndian>::new(src).read_uint_at(pos, nbytes)
}

/// Reads of big-endian integers at a position.
pub trait PreadInt {
    /// The bytes that are read from.
    spec fn contents(&self) -> Seq<u8>;

    /// Whether reads within the contents always succeed.
    spec fn reliable(&self) -> bool;

    /// Reads the integer that the `nbytes` bytes at `pos` spell.
    fn pread_uint(&self, nbytes: usize, pos: u64) -> (r: Result<u64, std::io::Error>)
        requires
            1 <= nbytes <= 8,
        ensures
            r is Ok ==> pos + nbytes <= self.contents().len(),
            r matches Ok(v) ==> v == be_value(
                self.contents().subrange(pos as int, pos + nbytes),
            ),
            self.reliable() && pos + nbytes <= self.contents().len() ==> r is Ok,
    ;

    /// Reads the 64-bit integer at `pos`.
    fn pread_u64(&self, pos: u64) -> (r: Result<u64, std::io::Error>)
        ensures
            r is Ok ==> pos + 8 <= self.contents().len(),
            r matches Ok(v) ==> v == be_value(self.contents().subrange(pos as int, pos + 8)),
            self.reliable() && pos + 8 <= self.contents().len() ==> r is Ok,
    {
        self.pread_uint(8, pos)
    }
}

/// Reads of big-endian integers one after the other.
pub trait ReadInt {
    /// The bytes that are read from.
    spec fn contents(&self) -> Seq<u8>;

    /// Whether reads within the contents always succeed.
    spec fn reliable(&self) -> bool;

    /// The offset of the next read.
    spec fn offset(&self) -> nat;

    /// Reads the integer that the next `nbytes` bytes spell and moves past
    /// them. A failed read moves nothing.
    fn read_uint(&mut self, nbytes: usize) -> (r: Result<u64, std::io::Error>)
        requires
            1 <= nbytes <= 8,
            old(self).offset() + nbytes <= u64::MAX,
        ensures
            final(self).contents() == old(self).contents(),
            final(self).reliable() == old(self).reliable(),
            r is Ok ==> old(self).offset() + nbytes <= old(self).contents().len(),
            r matches Ok(v) ==> v == be_value(
                old(self).contents().subrange(
                    old(self).offset() as int,
                    old(self).offset() + nbytes,
                ),
            ),
            r is Ok ==> final(self).offset() == old(self).offset() + nbytes,
            r is Err ==> final(self).offset() == old(self).offset(),
            old(self).reliable() && old(self).offset() + nbytes <= old(self).contents().len()
                ==> r is Ok,
    ;

    /// Reads the next 32-bit integer.
    fn read_u32(&mut self) -> (r: Result<u32, std::io::Error>)
        requires
            old(self).offset() + 4 <= u64::MAX,
        ensures
            final(self).contents() == old(self).contents(),
            final(self).reliable() == old(self).reliable(),
            r is Ok ==> old(self).offset() + 4 <= old(self).contents().len(),
            r matches Ok(v) ==> v == be_value(
                old(self).contents().subrange(old(self).offset() as int, old(self).offset() as int + 4),
            ),
            r is Ok ==> final(self).offset() == old(self).offset() + 4,
            r is Err ==> final(self).offset() == old(self).offset(),
            old(self).reliable() && old(self).offset() + 4 <= old(self).contents().len()
                ==> r is Ok,
    {
        match self.read_uint(4) {
            Ok(v) => {
                proof {
                    lemma_be_value_bound(
                        old(self).contents().subrange(
                            old(self).offset() as int,
                            old(self).offset() as int + 4,
                        ),
                    );
                }
                Ok(v as u32)
            },
            Err(e) => Err(e),
        }
    }

    /// Reads the next 64-bit integer.
    fn read_u64(&mut self) -> (r: Result<u64, std::io::Error>)
        requires
            old(self).offset() + 8 <= u64::MAX,
        ensures
            final(self).contents() == old(self).contents(),
            final(self).reliable() == old(self).reliable(),
            r is Ok ==> old(self).offset() + 8 <= old(self).contents().len(),
            r matches Ok(v) ==> v == be_value(
                old(self).contents().subrange(old(self).offset() as int, old(self).offset() as int + 8),
            ),
            r is Ok ==> final(self).offset() == old(self).offset() + 8,
            r is Err ==> final(self).offset() == old(self).offset(),
            old(self).reliable() && old(self).offset() + 8 <= old(self).contents().len()
                ==> r is Ok,
    {
        self.read_uint(8)
    }
}

/// A source whose integers are read in big-endian order.
pub struct Io<I> {
    pub io: I,
}

impl<I> Io<I> {
    /// Wraps the source `io`.
    pub fn new(io: I) -> (r: Self)
        ensures
            r.io == io,
    {
        Io { io }
    }
}

impl<I: Pread> Io<I> {
    /// Fills `buf` with the bytes of the source from `pos` on, or fails.
    pub fn read_exact_at(&self, pos: u64, buf: &mut [u8]) -> (r: Result<(), std::io::Error>)
        ensures
            final(buf)@.len() == old(buf)@.len(),
            r is Ok ==> crate::pread::spec_readable(
                self.io.contents(),
                pos as int,
                old(buf)@.len() as int,
            ),
            r is Ok ==> final(buf)@ == crate::pread::spec_read(
                self.io.contents(),
                pos as int,
                old(buf)@.len() as int,
            ),
            self.io.reliable() && crate::pread::spec_readable(
                self.io.contents(),
                pos as int,
                old(buf)@.len() as int,
            ) ==> r is Ok,
    {
        self.io.pread_exact(buf, pos)
    }
}

impl<I: Pread> PreadInt for Io<I> {
    open spec fn contents(&self) -> Seq<u8> {
        self.io.contents()
    }

    open spec fn reliable(&self) -> bool {
        self.io.reliable()
    }

    fn pread_uint(&self, nbytes: usize, pos: u64) -> (r: Result<u64, std::io::Error>) {
        let mut buf: Vec<u8> = vec![0u8; nbytes];
        match self.io.pread_exact(buf.as_mut_slice(), pos) {
            Ok(()) => {
                assert(buf@.subrange(0, nbytes as int) =~= self.io.contents().subrange(
                    pos as int,
                    pos + nbytes,
                ));
                Ok(be_uint(buf.as_slice(), nbytes))
            },
            Err(e) => Err(e),
        }
    }
}

/// A position in a source, from which bytes are read in sequence.
pub struct Cursor<'a, I: Pread> {
    pub io: &'a Io<I>,
    pub pos: u64,
}

impl<'a, I: Pread> Cursor<'a, I> {
    /// A cursor at the start of `io`.
    pub fn new(io: &'a Io<I>) -> (r: Self)
        ensures
            r.io == io,
            r.pos == 0,
    {
        Cursor { io, pos: 0 }
    }

    /// The offset of the next read.
    pub fn position(&self) -> (r: u64)
        ensures
            r == self.pos,
    {
        self.pos
    }

    /// Moves the cursor to the offset `pos`.
    pub fn set_position(&mut self, pos: u64)
        ensures
            final(self).io == old(self).io,
            final(self).pos == pos,
    {
        self.pos = pos;
    }

    /// Fills `buf` with the next bytes and moves past them. A failed read
    /// moves nothing.
    pub fn read_exact(&mut self, buf: &mut [u8]) -> (r: Result<(), std::io::Error>)
        requires
            old(self).pos + old(buf)@.len() <= u64::MAX,
        ensures
            final(self).io == old(self).io,
            final(buf)@.len() == old(buf)@.len(),
            r is Ok ==> crate::pread::spec_readable(
                old(self).io.io.contents(),
                old(self).pos as int,
                old(buf)@.len() as int,
            ),
            r is Ok ==> final(buf)@ == crate::pread::spec_read(
                old(self).io.io.contents(),
                old(self).pos as int,
                old(buf)@.len() as int,
            ),
            r is Ok ==> final(self).pos == old(self).pos + old(buf)@.len(),
            r is Err ==> final(self).pos == old(self).pos,
            old(self).io.io.reliable() && crate::pread::spec_readable(
                old(self).io.io.contents(),
                old(self).pos as int,
                old(buf)@.len() as int,
            ) ==> r is Ok,
    {
        let n = buf.len();
        match self.io.read_exact_at(self.pos, buf) {
            Ok(()) => {
                self.pos = self.pos + n as u64;
                Ok(())
            },
            Err(e) => Err(e),
        }
    }
}

impl<'a, I: Pread> ReadInt for Cursor<'a, I> {
    open spec fn contents(&self) -> Seq<u8> {
        self.io.io.contents()
    }

    open spec fn reliable(&self) -> bool {
        self.io.io.reliable()
    }

    open spec fn offset(&self) -> nat {
        self.pos as nat
    }

    fn read_uint(&mut self, nbytes: usize) -> (r: Result<u64, std::io::Error>)
        ensures
            final(self).io == old(self).io,
    {
        match self.io.pread_uint(nbytes, self.pos) {
            Ok(v) => {
                self.pos = self.pos + nbytes as u64;
                Ok(v)
            },
            Err(e) => Err(e),
        }
    }
}

} // verus!
