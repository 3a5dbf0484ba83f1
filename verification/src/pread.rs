//! Positioned reads: the one capability that an image asks of the source
//! that backs it.

use vstd::prelude::*;

verus! {

/// A source of bytes that can be read at any offset, such as a file.
///
/// To its readers a source is a fixed sequence of bytes, `contents()`. A read
/// may fail for reasons of the source's own; a source that calls itself
/// `reliable()` fails only where the bytes asked for are not all there.
pub trait Pread {
    /// The bytes of the source, from offset zero. Of a source that does
    /// not say what they are, nothing is known but that they are the same
    /// at every read.
    open spec fn contents(&self) -> Seq<u8> {
        (vstd::pervasive::arbitrary::<spec_fn(&Self) -> Seq<u8>>())(self)
    }

    /// Whether reads within the contents always succeed. A source that does
    /// not say so is not taken to be reliable.
    open spec fn reliable(&self) -> bool {
        false
    }

    /// Reads up to `buf.len()` bytes from offset `pos` into the start of
    /// `buf` and returns how many were read; zero only at or after the end
    /// of the contents, or for an empty buffer.
    fn pread(&self, buf: &mut [u8], pos: u64) -> (r: Result<usize, std::io::Error>)
        ensures
            final(buf)@.len() == old(buf)@.len(),
            r matches Ok(n) ==> {
                &&& n <= old(buf)@.len()
                &&& n > 0 ==> pos + n <= self.contents().len()
                &&& n == 0 ==> old(buf)@.len() == 0 || pos >= self.contents().len()
                &&& forall|i: int| 0 <= i < n ==> final(buf)@[i] == self.contents()[pos + i]
                &&& forall|i: int| n <= i < old(buf)@.len() ==> final(buf)@[i] == old(buf)@[i]
            },
            self.reliable() ==> r is Ok,
    ;

    /// Fills `buf` with the bytes from offset `pos` on, or fails. An empty
    /// buffer is filled at any offset.
    fn pread_exact(&self, buf: &mut [u8], pos: u64) -> (r: Result<(), std::io::Error>)
        ensures
            final(buf)@.len() == old(buf)@.len(),
            r is Ok ==> spec_readable(self.contents(), pos as int, old(buf)@.len() as int),
            r is Ok ==> final(buf)@ == spec_read(self.contents(), pos as int, old(buf)@.len() as int),
            self.reliable() && spec_readable(self.contents(), pos as int, old(buf)@.len() as int)
                ==> r is Ok,
    ;
}

/// Whether `len` bytes can be read from `data` at offset `pos`: always for
/// no bytes, else where they all lie within `data`.
pub open spec fn spec_readable(data: Seq<u8>, pos: int, len: int) -> bool {
    len == 0 || (0 <= pos && 0 <= len && pos + len <= data.len())
}

/// The `len` bytes of `data` from offset `pos` on, where they can be read.
pub open spec fn spec_read(data: Seq<u8>, pos: int, len: int) -> Seq<u8> {
    if len == 0 {
        Seq::empty()
    } else {
        data.subrange(pos, pos + len)
    }
}

/// `positioned_io::ReadAt::read_at` of a byte slice: it copies the bytes of
/// `src` from `pos` on into the start of `buf`, as many as both hold, leaves
/// the rest of `buf` as it was, and returns their number. It never fails.
#[verifier::external_body]
fn slice_read_at(src: &[u8], pos: u64, buf: &mut [u8]) -> (r: Result<usize, std::io::Error>)
    ensures
        final(buf)@.len() == old(buf)@.len(),
        r matches Ok(n) && n == spec_available(src@.len(), pos as nat, old(buf)@.len()),
        forall|i: int|
            0 <= i < spec_available(src@.len(), pos as nat, old(buf)@.len()) ==> final(buf)@[i]
                == src@[pos + i],
        forall|i: int|
            spec_available(src@.len(), pos as nat, old(buf)@.len()) <= i < old(buf)@.len()
                ==> final(buf)@[i] == old(buf)@[i],
{
    positioned_io::ReadAt::read_at(&src, pos, buf)
}

/// `positioned_io::ReadAt::read_exact_at` of a byte slice: it succeeds where
/// `buf` is empty or `src` holds `buf.len()` bytes from `pos` on, and then
/// `buf` holds those bytes.
#[verifier::external_body]
fn slice_read_exact_at(src: &[u8], pos: u64, buf: &mut [u8]) -> (r: Result<(), std::io::Error>)
    ensures
        final(buf)@.len() == old(buf)@.len(),
        r is Ok <==> spec_readable(src@, pos as int, old(buf)@.len() as int),
        r is Ok ==> final(buf)@ == spec_read(src@, pos as int, old(buf)@.len() as int),
{
    positioned_io::ReadAt::read_exact_at(&src, pos, buf)
}

/// How many bytes a read of `want` bytes at `pos` finds in `len` bytes.
pub open spec fn spec_available(len: nat, pos: nat, want: nat) -> nat {
    if pos >= len {
        0
    } else if want <= len - pos {
        want
    } else {
        (len - pos) as nat
    }
}

/// An image held in memory is a reliable source: its contents are the
/// vector's bytes.
impl Pread for Vec<u8> {
    open spec fn contents(&self) -> Seq<u8> {
        self@
    }

    open spec fn reliable(&self) -> bool {
        true
    }

    fn pread(&self, buf: &mut [u8], pos: u64) -> (r: Result<usize, std::io::Error>)
        ensures
            r matches Ok(n) && n == spec_available(self@.len(), pos as nat, old(buf)@.len()),
    {
        slice_read_at(self.as_slice(), pos, buf)
    }

    fn pread_exact(&self, buf: &mut [u8], pos: u64) -> (r: Result<(), std::io::Error>)
        ensures
            r is Ok <==> spec_readable(self@, pos as int, old(buf)@.len() as int),
    {
        slice_read_exact_at(self.as_slice(), pos, buf)
    }
}

} // verus!
