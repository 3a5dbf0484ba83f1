//! An image, and the reader that presents it as the guest's disk.

use crate::cache::lru_get_mut;
use crate::cache::lru_insert;
use crate::cache::lru_new;
use crate::entry::L1Entry;
use crate::entry::L2Entry;
use crate::error::Error;
use crate::header::Header;
use crate::io::slice_uint_at;
use crate::io::Io;
use crate::pread::Pread;
use lru_cache::LruCache;
use vstd::prelude::*;
use vstd::string::StringExecFns;

verus! {

/// The number of L2 tables that an image keeps in memory.
pub const L2_CACHE_SIZE: usize = 32;

/// Whether a cache entry holds the L2 table that `file` has at the entry's
/// key: the whole cluster at that offset.
pub open spec fn spec_table_cached(file: Seq<u8>, cluster_size: nat, entry: (u64, Seq<u8>)) -> bool {
    &&& entry.0 + cluster_size <= file.len()
    &&& entry.1 == file.subrange(entry.0 as int, entry.0 + cluster_size)
}

/// A qcow2 image: its header, the source that holds it, and the L2 tables
/// that were used last.
pub struct Qcow2<I: Pread> {
    header: Header,
    io: Io<I>,
    l2_cache: LruCache<u64, Vec<u8>>,
}

impl<I: Pread> Qcow2<I> {
    #[verifier::type_invariant]
    spec fn inv(self) -> bool {
        &&& self.header@.valid()
        &&& crate::cache::lru_capacity(self.l2_cache) == L2_CACHE_SIZE
        &&& crate::cache::lru_entries(self.l2_cache).len() <= L2_CACHE_SIZE
        &&& forall|i: int|
            0 <= i < crate::cache::lru_entries(self.l2_cache).len() ==> spec_table_cached(
                self.io.io.contents(),
                self.header.c.spec_cluster_size(),
                #[trigger] crate::cache::lru_entries(self.l2_cache)[i],
            )
    }

    /// The header of the image.
    pub closed spec fn spec_header(&self) -> crate::header::HeaderView {
        self.header@
    }

    /// The bytes of the source.
    pub closed spec fn spec_contents(&self) -> Seq<u8> {
        self.io.io.contents()
    }

    /// Whether the source is reliable.
    pub closed spec fn spec_reliable(&self) -> bool {
        self.io.io.reliable()
    }

    /// The L2 tables in memory, each with its offset in the file, from the
    /// one that was used longest ago to the one that was used last.
    pub closed spec fn spec_cached(&self) -> Seq<(u64, Seq<u8>)> {
        crate::cache::lru_entries(self.l2_cache)
    }

    /// Opens a source of data as a qcow2 image: reads and checks its header.
    pub fn open(io: I) -> (r: Result<Self, Error>)
        ensures
            r matches Ok(q) ==> {
                &&& q.spec_contents() == io.contents()
                &&& q.spec_reliable() == io.reliable()
                &&& crate::header::spec_read_header(
                    io.contents(),
                    crate::header::HeaderView {
                        c: crate::header::spec_zero_common(),
                        v3: crate::header::spec_empty_v3(),
                    },
                ) == (q.spec_header(), None::<crate::error::ErrorView>)
                &&& q.spec_header().valid()
                &&& q.spec_cached().len() == 0
            },
            r matches Err(e) ==> {
                ||| crate::header::spec_read_header(
                    io.contents(),
                    crate::header::HeaderView {
                        c: crate::header::spec_zero_common(),
                        v3: crate::header::spec_empty_v3(),
                    },
                ).1 == Some(e@)
                ||| !io.reliable() && e@ == crate::error::ErrorView::Io
            },
    {
        let io = Io::new(io);
        let mut header = Header::default();
        match header.read(&io) {
            Ok(()) => {},
            Err(e) => return Err(e),
        }
        Ok(Qcow2 { header, io, l2_cache: lru_new(L2_CACHE_SIZE) })
    }

    /// The header of the image, as it was read when the image was opened.
    pub fn header(&self) -> (r: &Header)
        ensures
            r@ == self.spec_header(),
            r@.valid(),
    {
        proof {
            use_type_invariant(self);
        }
        &self.header
    }

    /// The source that holds the image.
    pub fn source(&self) -> (r: &I)
        ensures
            r.contents() == self.spec_contents(),
            r.reliable() == self.spec_reliable(),
    {
        &self.io.io
    }

    /// The size of each cluster of the image: a power of two from 512 bytes
    /// to 4 MiB.
    pub fn cluster_size(&self) -> (r: u64)
        ensures
            r == self.spec_header().c.spec_cluster_size(),
            9 <= self.spec_header().c.cluster_bits <= 22,
            r == vstd::arithmetic::power2::pow2(self.spec_header().c.cluster_bits as nat),
            512 <= r <= 4194304,
    {
        proof {
            use_type_invariant(self);
        }
        self.header.cluster_size()
    }

    /// The size of the guest's disk in bytes.
    pub fn guest_size(&self) -> (r: u64)
        ensures
            r == self.spec_header().c.size,
    {
        self.header.guest_size()
    }
}

impl<I: Pread> Qcow2<I> {
    // Reads the entry number `l1_l2_idx` of the L1 table `l1`.
    fn l1_entry_read(&self, l1: &Vec<u8>, l1_l2_idx: u64) -> (r: Result<L1Entry, Error>)
        requires
            l1_l2_idx * 8 <= u64::MAX,
        ensures
            l1_l2_idx * 8 + 8 > l1@.len() ==> crate::error::spec_result(r) == Err::<
                L1Entry,
                crate::error::ErrorView,
            >(crate::error::ErrorView::Io),
            l1_l2_idx * 8 + 8 <= l1@.len() ==> crate::error::spec_result(r)
                == crate::entry::spec_l1_parse(crate::header::spec_u64_at(l1@, l1_l2_idx * 8)),
            r matches Ok(L1Entry::Standard { pos, .. }) ==> 0 < pos <= crate::entry::L1_POS,
    {
        let offset = l1_l2_idx * 8;
        let entry = match slice_uint_at(l1.as_slice(), offset, 8) {
            Ok(v) => v,
            Err(e) => return Err(Error::Io(e)),
        };
        L1Entry::parse(entry)
    }

    // Reads the entry number `l2_block_idx` of the L2 table at the offset
    // `l2_pos` of the file. The table is taken from the cache, or read as
    // one cluster and put there.
    fn l2_entry_read_raw(&mut self, l2_pos: u64, l2_block_idx: u64) -> (r: Result<u64, Error>)
        requires
            l2_block_idx < old(self).spec_header().c.spec_l2_entries(),
        ensures
            final(self).spec_header() == old(self).spec_header(),
            final(self).spec_contents() == old(self).spec_contents(),
            final(self).spec_reliable() == old(self).spec_reliable(),
            r matches Ok(v) ==> l2_pos + old(self).spec_header().c.spec_cluster_size() <= old(
                self,
            ).spec_contents().len() && v == crate::header::spec_u64_at(
                old(self).spec_contents(),
                l2_pos + l2_block_idx * 8,
            ),
            r matches Err(e) ==> e@ == crate::error::ErrorView::Io && (!old(self).spec_reliable()
                || l2_pos + old(self).spec_header().c.spec_cluster_size() > old(
                self,
            ).spec_contents().len()),
            final(self).spec_cached() == spec_cache_step(
                old(self).spec_cached(),
                old(self).spec_contents(),
                old(self).spec_header().c.spec_cluster_size(),
                l2_pos,
                r is Ok,
            ),
    {
        proof {
            use_type_invariant(&*self);
            crate::header::lemma_cluster_size(self.header.c.cluster_bits as nat);
            crate::cache::lemma_lru_touch(crate::cache::lru_entries(self.l2_cache), l2_pos);
            crate::cache::lemma_lru_without(crate::cache::lru_entries(self.l2_cache), l2_pos);
        }
        let ghost file = self.io.io.contents();
        let ghost entries = crate::cache::lru_entries(self.l2_cache);
        let cluster_size = self.header.cluster_size();
        let offset = l2_block_idx * 8;
        match lru_get_mut(&mut self.l2_cache, l2_pos) {
            Some(table) => {
                assert(entries.contains((l2_pos, table@)));
                assert(table@.subrange(offset as int, offset + 8) =~= file.subrange(
                    l2_pos + offset,
                    l2_pos + offset + 8,
                ));
                return match slice_uint_at(table.as_slice(), offset, 8) {
                    Ok(v) => Ok(v),
                    Err(e) => Err(Error::Io(e)),
                };
            },
            None => {},
        }
        let mut table: Vec<u8> = vec![0u8; cluster_size as usize];
        match self.io.read_exact_at(l2_pos, table.as_mut_slice()) {
            Ok(()) => {},
            Err(e) => return Err(Error::Io(e)),
        }
        assert(table@.subrange(offset as int, offset + 8) =~= file.subrange(
            l2_pos + offset,
            l2_pos + offset + 8,
        ));
        let r = match slice_uint_at(table.as_slice(), offset, 8) {
            Ok(v) => Ok(v),
            Err(e) => Err(Error::Io(e)),
        };
        proof {
            crate::cache::lemma_lru_insert(entries, L2_CACHE_SIZE as nat, l2_pos, table@);
        }
        lru_insert(&mut self.l2_cache, l2_pos, table);
        r
    }

    // Reads an L2 entry from its 64 bits.
    fn l2_entry_parse(&self, entry: u64) -> (r: Result<L2Entry, Error>)
        ensures
            crate::error::spec_result(r) == crate::entry::spec_l2_parse(
                entry,
                self.spec_header().c.cluster_bits,
            ),
            r matches Ok(L2Entry::Standard { pos, .. }) ==> 0 < pos <= crate::entry::L2_POS,
    {
        proof {
            use_type_invariant(self);
        }
        L2Entry::parse(entry, self.header.c.cluster_bits)
    }
}

impl<I: Pread> Qcow2<I> {
    // Finds the L2 entry of the cluster that holds `guest_offset`.
    fn l2_entry_read(&mut self, l1: &Vec<u8>, guest_offset: u64) -> (r: Result<L2Entry, Error>)
        ensures
            final(self).spec_header() == old(self).spec_header(),
            final(self).spec_contents() == old(self).spec_contents(),
            final(self).spec_reliable() == old(self).spec_reliable(),
            ({
                ||| crate::error::spec_result(r) == crate::guest::spec_l2_entry(
                    old(self).spec_contents(),
                    old(self).spec_header().c,
                    l1@,
                    guest_offset as int,
                )
                ||| !old(self).spec_reliable() && crate::error::spec_result(r) == Err::<
                    L2Entry,
                    crate::error::ErrorView,
                >(crate::error::ErrorView::Io)
            }),
            r matches Ok(L2Entry::Standard { pos, .. }) ==> 0 < pos <= crate::entry::L2_POS,
            old(self).spec_reliable() ==> final(self).spec_cached() == spec_cache_lookup(
                old(self).spec_cached(),
                old(self).spec_contents(),
                old(self).spec_header().c,
                l1@,
                guest_offset as int,
            ),
    {
        proof {
            use_type_invariant(&*self);
            crate::header::lemma_cluster_size(self.header.c.cluster_bits as nat);
        }
        let (l1_l2_idx, l2_block_idx, _) = self.header.guest_offset_info(guest_offset);
        proof {
            let cs = self.header.c.spec_cluster_size() as int;
            let l2e = self.header.c.spec_l2_entries() as int;
            let block = guest_offset as int / cs;
            vstd::arithmetic::div_mod::lemma_div_pos_is_pos(guest_offset as int, cs);
            vstd::arithmetic::div_mod::lemma_div_is_ordered_by_denominator(block, 1, l2e);
            vstd::arithmetic::div_mod::lemma_div_is_ordered_by_denominator(
                guest_offset as int,
                512,
                cs,
            );
            vstd::arithmetic::div_mod::lemma_mod_bound(block, l2e);
        }
        let l1_entry = match self.l1_entry_read(l1, l1_l2_idx) {
            Ok(e) => e,
            Err(e) => return Err(e),
        };
        match l1_entry {
            L1Entry::Empty => Ok(L2Entry::Empty),
            L1Entry::Standard { pos, .. } => {
                let raw = match self.l2_entry_read_raw(pos, l2_block_idx) {
                    Ok(v) => v,
                    Err(e) => return Err(e),
                };
                self.l2_entry_parse(raw)
            },
        }
    }

    // Fills `buf` with zeros.
    fn zero_fill(buf: &mut [u8])
        ensures
            final(buf)@.len() == old(buf)@.len(),
            forall|i: int| 0 <= i < final(buf)@.len() ==> final(buf)@[i] == 0u8,
    {
        let n = buf.len();
        let mut i: usize = 0;
        while i < n
            invariant
                buf@.len() == n,
                i <= n,
                forall|j: int| 0 <= j < i ==> buf@[j] == 0u8,
            decreases n - i,
        {
            buf[i] = 0;
            i += 1;
        }
    }

    // Fills `buf` with the bytes of the cluster of `entry`, from the offset
    // `offset` in the cluster on.
    fn guest_block_read(&self, entry: L2Entry, offset: u64, buf: &mut [u8]) -> (r: Result<
        (),
        Error,
    >)
        requires
            offset < 4194304,
            entry matches L2Entry::Standard { pos, .. } ==> pos <= crate::entry::L2_POS,
        ensures
            final(buf)@.len() == old(buf)@.len(),
            match entry {
                L2Entry::Empty => r is Ok && forall|i: int|
                    0 <= i < final(buf)@.len() ==> final(buf)@[i] == 0u8,
                L2Entry::Standard { pos, zero, .. } => if zero {
                    r is Ok && forall|i: int|
                        0 <= i < final(buf)@.len() ==> final(buf)@[i] == 0u8
                } else {
                    &&& r is Ok ==> crate::pread::spec_readable(
                        self.spec_contents(),
                        pos + offset,
                        old(buf)@.len() as int,
                    ) && final(buf)@ == crate::pread::spec_read(
                        self.spec_contents(),
                        pos + offset,
                        old(buf)@.len() as int,
                    )
                    &&& r matches Err(e) ==> e@ == crate::error::ErrorView::Io && (
                    !self.spec_reliable() || !crate::pread::spec_readable(
                        self.spec_contents(),
                        pos + offset,
                        old(buf)@.len() as int,
                    ))
                },
                L2Entry::Compressed { .. } => crate::error::spec_result(r) == Err::<
                    (),
                    crate::error::ErrorView,
                >(crate::error::ErrorView::UnsupportedFeature("compressed blocks"@)),
            },
    {
        match entry {
            L2Entry::Empty => Self::zero_fill(buf),
            L2Entry::Standard { pos, zero, .. } => {
                if zero {
                    Self::zero_fill(buf)
                } else {
                    match self.io.read_exact_at(pos + offset, buf) {
                        Ok(()) => {},
                        Err(e) => return Err(Error::Io(e)),
                    }
                }
            },
            L2Entry::Compressed { .. } => {
                return Err(Error::UnsupportedFeature(String::from_str("compressed blocks")))
            },
        }
        Ok(())
    }

    // Reads the L1 table, which the file holds at `l1_offset`.
    fn l1_read(&self, l1_offset: u64) -> (r: Result<Vec<u8>, Error>)
        ensures
            match r {
                Ok(l1) => {
                    &&& l1@.len() == self.spec_header().c.spec_l1_entries() * 8
                    &&& l1@.len() <= usize::MAX
                    &&& crate::pread::spec_readable(
                        self.spec_contents(),
                        l1_offset as int,
                        l1@.len() as int,
                    )
                    &&& l1@ == crate::pread::spec_read(
                        self.spec_contents(),
                        l1_offset as int,
                        l1@.len() as int,
                    )
                },
                Err(e) => if self.spec_header().c.spec_l1_entries() * 8 > usize::MAX {
                    e@ == crate::error::ErrorView::Internal("L1 table does not fit in memory"@)
                } else {
                    e@ == crate::error::ErrorView::Io && (!self.spec_reliable()
                        || !crate::pread::spec_readable(
                        self.spec_contents(),
                        l1_offset as int,
                        (self.spec_header().c.spec_l1_entries() * 8) as int,
                    ))
                },
            },
    {
        proof {
            use_type_invariant(self);
            crate::header::lemma_cluster_size(self.header.c.cluster_bits as nat);
        }
        let len: u64 = self.header.l1_entries() * 8;
        if len > usize::MAX as u64 {
            return Err(Error::Internal(String::from_str("L1 table does not fit in memory")));
        }
        let mut buf: Vec<u8> = vec![0u8; len as usize];
        match self.io.read_exact_at(l1_offset, buf.as_mut_slice()) {
            Ok(()) => {},
            Err(e) => return Err(Error::Io(e)),
        }
        Ok(buf)
    }
}

impl<I: Pread> Qcow2<I> {
    // Reads from the guest offset `pos` on into `buf`, cluster by cluster.
    fn guest_read(&mut self, l1: &Vec<u8>, pos: u64, buf: &mut [u8]) -> (r: Result<usize, Error>)
        ensures
            final(self).spec_header() == old(self).spec_header(),
            final(self).spec_contents() == old(self).spec_contents(),
            final(self).spec_reliable() == old(self).spec_reliable(),
            final(self).spec_cached().len() <= L2_CACHE_SIZE,
            forall|i: int|
                0 <= i < final(self).spec_cached().len() ==> spec_table_cached(
                    old(self).spec_contents(),
                    old(self).spec_header().c.spec_cluster_size(),
                    #[trigger] final(self).spec_cached()[i],
                ),
            crate::guest::spec_guest_read(
                old(self).spec_contents(),
                old(self).spec_reliable(),
                old(self).spec_header().c,
                l1@,
                pos,
                old(buf)@,
                final(buf)@,
                crate::error::spec_result(r),
            ),
            pos >= old(self).spec_header().c.size ==> crate::error::spec_result(r) == Ok::<
                usize,
                crate::error::ErrorView,
            >(0usize),
            old(self).spec_reliable() ==> final(self).spec_cached() == spec_cache_after_read(
                old(self).spec_cached(),
                old(self).spec_contents(),
                old(self).spec_header().c,
                l1@,
                pos as int,
                pos + crate::guest::spec_read_len(
                    old(self).spec_header().c.size,
                    pos,
                    old(buf)@.len(),
                ),
            ),
    {
        proof {
            use_type_invariant(&*self);
            crate::header::lemma_cluster_size(self.header.c.cluster_bits as nat);
        }
        // Reads at or behind the end give nothing.
        if pos >= self.header.guest_size() {
            return Ok(0);
        }
        let remaining: u64 = self.header.guest_size() - pos;
        let len: usize = buf.len();
        let ret: usize = if len as u64 <= remaining {
            len
        } else {
            remaining as usize
        };
        let cluster_size = self.header.cluster_size();
        let ghost file = self.io.io.contents();
        let ghost c = self.header.c;
        let ghost end = pos + ret;
        let mut done: usize = 0;
        while done < ret
            invariant
                done <= ret <= len,
                len == buf@.len(),
                len == old(buf)@.len(),
                pos + ret <= c.size,
                end == pos + ret,
                ret == crate::guest::spec_read_len(c.size, pos, len as nat),
                9 <= c.cluster_bits <= 22,
                cluster_size == c.spec_cluster_size(),
                512 <= cluster_size <= 4194304,
                self.spec_header() == old(self).spec_header(),
                self.spec_contents() == old(self).spec_contents(),
                self.spec_reliable() == old(self).spec_reliable(),
                file == old(self).spec_contents(),
                c == old(self).spec_header().c,
                forall|i: int|
                    0 <= i < done ==> #[trigger] crate::guest::spec_guest_at(
                        file,
                        c,
                        l1@,
                        pos as int,
                        i,
                    ) == Ok::<u8, crate::error::ErrorView>(buf@[i]),
                forall|i: int| done <= i < len ==> buf@[i] == old(buf)@[i],
                self.spec_reliable() ==> spec_cache_after_read(
                    old(self).spec_cached(),
                    file,
                    c,
                    l1@,
                    pos as int,
                    end,
                ) == spec_cache_after_read(self.spec_cached(), file, c, l1@, pos + done, end),
            decreases ret - done,
        {
            let p: u64 = pos + done as u64;
            let offset: u64 = p % cluster_size;
            let room: u64 = cluster_size - offset;
            let left: usize = ret - done;
            let size: usize = if left as u64 <= room {
                left
            } else {
                room as usize
            };
            let ghost entry_spec = crate::guest::spec_l2_entry(file, c, l1@, p as int);
            let ghost cached = self.spec_cached();
            proof {
                let cs = cluster_size as int;
                vstd::arithmetic::div_mod::lemma_fundamental_div_mod(p as int, cs);
                vstd::arithmetic::div_mod::lemma_fundamental_div_mod_converse(
                    p - offset,
                    cs,
                    p as int / cs,
                    0,
                );
                crate::guest::lemma_same_cluster(file, c, l1@, p - offset, offset as int);
                // The last byte of the part of the cluster that is read.
                crate::guest::lemma_same_cluster(file, c, l1@, p as int, size - 1);
                assert(pos + (done + size - 1) == p + size - 1);
            }
            let entry = match self.l2_entry_read(l1, p - offset) {
                Ok(e) => e,
                Err(e) => {
                    proof {
                        use_type_invariant(&*self);
                        if crate::guest::spec_l2_entry(file, c, l1@, p as int) == Err::<
                            L2Entry,
                            crate::error::ErrorView,
                        >(e@) {
                            assert(crate::guest::spec_guest_at(file, c, l1@, pos as int, done as int)
                                == Err::<u8, crate::error::ErrorView>(e@));
                        }
                    }
                    return Err(e);
                },
            };
            let ghost mid = buf@;
            let (_, rest) = buf.split_at_mut(done);
            let (chunk, _) = rest.split_at_mut(size);
            let r = self.guest_block_read(entry, offset, chunk);
            proof {
                assert(buf@.len() == len);
                assert forall|i: int| 0 <= i < done implies buf@[i] == mid[i] by {}
                assert forall|i: int| done + size <= i < len implies buf@[i] == mid[i] by {}
            }
            match r {
                Ok(()) => {
                    proof {
                        assert forall|i: int| done <= i < done + size implies (
                        #[trigger] crate::guest::spec_guest_at(file, c, l1@, pos as int, i))
                            == Ok::<u8, crate::error::ErrorView>(buf@[i]) by {
                            let k = i - done;
                            crate::guest::lemma_same_cluster(file, c, l1@, p as int, k);
                            assert(pos + i == p + k);
                        }
                        assert(crate::guest::spec_guest_at(
                            file,
                            c,
                            l1@,
                            pos as int,
                            done + size - 1,
                        ) is Ok);
                    }
                },
                Err(e) => {
                    proof {
                        use_type_invariant(&*self);
                        match entry {
                            L2Entry::Standard { pos: at, zero, .. } => {
                                if self.spec_reliable() {
                                    let k0: int = if file.len() >= at + offset {
                                        file.len() - (at + offset)
                                    } else {
                                        0
                                    };
                                    crate::guest::lemma_same_cluster(file, c, l1@, p as int, k0);
                                    assert(pos + (done + k0) == p + k0);
                                    assert(crate::guest::spec_guest_at(
                                        file,
                                        c,
                                        l1@,
                                        pos as int,
                                        done + k0,
                                    ) == Err::<u8, crate::error::ErrorView>(e@));
                                    assert forall|j: int| 0 <= j < done + k0 implies (
                                    #[trigger] crate::guest::spec_guest_at(
                                        file,
                                        c,
                                        l1@,
                                        pos as int,
                                        j,
                                    )) is Ok by {
                                        if j >= done {
                                            let k = j - done;
                                            crate::guest::lemma_same_cluster(
                                                file,
                                                c,
                                                l1@,
                                                p as int,
                                                k,
                                            );
                                            assert(pos + j == p + k);
                                        }
                                    }
                                }
                            },
                            _ => {
                                assert(crate::guest::spec_guest_at(
                                    file,
                                    c,
                                    l1@,
                                    pos as int,
                                    done as int,
                                ) == Err::<u8, crate::error::ErrorView>(e@));
                            },
                        }
                    }
                    return Err(e);
                },
            }
            done = done + size;
        }
        proof {
            use_type_invariant(&*self);
        }
        Ok(ret)
    }
}

/// The cache after the L2 table at `key` was asked for: a table that was in
/// the cache has become the one used last; one that was not, and was read,
/// has been put into the cache; and where the read failed, nothing has
/// changed.
pub open spec fn spec_cache_step(
    cached: Seq<(u64, Seq<u8>)>,
    file: Seq<u8>,
    cluster_size: nat,
    key: u64,
    ok: bool,
) -> Seq<(u64, Seq<u8>)> {
    if crate::cache::spec_lru_get(cached, key) is Some {
        crate::cache::spec_lru_touch(cached, key)
    } else if ok {
        crate::cache::spec_lru_insert(
            cached,
            L2_CACHE_SIZE as nat,
            key,
            file.subrange(key as int, key + cluster_size),
        )
    } else {
        cached
    }
}

/// The cache after the L2 entry of the cluster that holds the guest offset
/// `p` was looked up, with a reliable source: where the L1 table names an
/// L2 table for the cluster, that table was asked for.
pub open spec fn spec_cache_lookup(
    cached: Seq<(u64, Seq<u8>)>,
    file: Seq<u8>,
    c: crate::header::HeaderCommon,
    l1: Seq<u8>,
    p: int,
) -> Seq<(u64, Seq<u8>)> {
    match crate::guest::spec_l2_table(c, l1, p) {
        Some(key) => spec_cache_step(
            cached,
            file,
            c.spec_cluster_size(),
            key,
            key + c.spec_cluster_size() <= file.len(),
        ),
        None => cached,
    }
}

/// The cache after a read of the guest offsets from `p` up to `end`, with
/// a reliable source: the L2 entry of each cluster of the range was looked
/// up in turn, up to the first cluster that could not be read.
pub open spec fn spec_cache_after_read(
    cached: Seq<(u64, Seq<u8>)>,
    file: Seq<u8>,
    c: crate::header::HeaderCommon,
    l1: Seq<u8>,
    p: int,
    end: int,
) -> Seq<(u64, Seq<u8>)>
    decreases end - p,
{
    let room = c.spec_cluster_size() - p % (c.spec_cluster_size() as int);
    if p >= end || room <= 0 {
        cached
    } else {
        let after = spec_cache_lookup(cached, file, c, l1, p);
        let next = if end - p <= room {
            end
        } else {
            p + room
        };
        if crate::guest::spec_guest_byte(file, c, l1, next - 1) is Ok {
            spec_cache_after_read(after, file, c, l1, next, end)
        } else {
            after
        }
    }
}

/// The L1 table that a reader of an image with the bytes `file` and the
/// shared header fields `c` holds: the bytes of the file from the table's
/// offset on, eight for each entry.
pub open spec fn spec_l1_table(file: Seq<u8>, c: crate::header::HeaderCommon) -> Seq<u8> {
    crate::pread::spec_read(file, c.l1_table_offset as int, (c.spec_l1_entries() * 8) as int)
}

/// What making a reader of an image with the bytes `file` and the shared
/// header fields `c` fails with, if it fails: a table that is too big for
/// memory is an internal error, one that the file does not hold fails as a
/// failed read does.
pub open spec fn spec_reader_failure(file: Seq<u8>, c: crate::header::HeaderCommon) -> Option<
    crate::error::ErrorView,
> {
    if c.spec_l1_entries() * 8 > usize::MAX {
        Some(crate::error::ErrorView::Internal("L1 table does not fit in memory"@))
    } else if !crate::pread::spec_readable(
        file,
        c.l1_table_offset as int,
        (c.spec_l1_entries() * 8) as int,
    ) {
        Some(crate::error::ErrorView::Io)
    } else {
        None
    }
}

/// A reader of the guest's disk: the image, and its L1 table in memory.
pub struct Reader<'a, I: Pread> {
    pub q: &'a mut Qcow2<I>,
    pub l1: Vec<u8>,
}

impl<'a, I: Pread> Reader<'a, I> {
    /// A reader of the image `q`, whose L1 table the file holds at
    /// `l1_offset`.
    pub fn new(q: &'a mut Qcow2<I>, l1_offset: u64) -> (r: Result<Self, Error>)
        ensures
            match r {
                Ok(reader) => {
                    &&& reader.q.spec_header() == old(q).spec_header()
                    &&& reader.q.spec_contents() == old(q).spec_contents()
                    &&& reader.q.spec_reliable() == old(q).spec_reliable()
                    &&& reader.q.spec_cached() == old(q).spec_cached()
                    &&& reader.l1@.len() == old(q).spec_header().c.spec_l1_entries() * 8
                    &&& reader.l1@.len() <= usize::MAX
                    &&& crate::pread::spec_readable(
                        old(q).spec_contents(),
                        l1_offset as int,
                        reader.l1@.len() as int,
                    )
                    &&& reader.l1@ == crate::pread::spec_read(
                        old(q).spec_contents(),
                        l1_offset as int,
                        reader.l1@.len() as int,
                    )
                },
                Err(e) => if old(q).spec_header().c.spec_l1_entries() * 8 > usize::MAX {
                    e@ == crate::error::ErrorView::Internal("L1 table does not fit in memory"@)
                } else {
                    e@ == crate::error::ErrorView::Io && (!old(q).spec_reliable()
                        || !crate::pread::spec_readable(
                        old(q).spec_contents(),
                        l1_offset as int,
                        (old(q).spec_header().c.spec_l1_entries() * 8) as int,
                    ))
                },
            },
            r matches Ok(reader) ==> *final(q) == *final(reader.q),
            r is Err ==> *final(q) == *old(q),
    {
        let buf = match q.l1_read(l1_offset) {
            Ok(buf) => buf,
            Err(e) => return Err(e),
        };
        Ok(Reader { q, l1: buf })
    }

    /// Reads from the guest's disk at the offset `pos` into `buf`, and
    /// returns the number of bytes read: those of `buf` that lie before the
    /// guest's end. The rest of `buf` is left as it was. The reader keeps
    /// its image, which changes in its cache of L2 tables only: that holds
    /// at most 32 of them, each as the file holds it.
    pub fn read_at(&mut self, pos: u64, buf: &mut [u8]) -> (r: Result<usize, Error>)
        ensures
            final(self).l1 == old(self).l1,
            *final(final(self).q) == *final(old(self).q),
            final(self).q.spec_header() == old(self).q.spec_header(),
            final(self).q.spec_contents() == old(self).q.spec_contents(),
            final(self).q.spec_reliable() == old(self).q.spec_reliable(),
            final(self).q.spec_cached().len() <= L2_CACHE_SIZE,
            forall|i: int|
                0 <= i < final(self).q.spec_cached().len() ==> spec_table_cached(
                    old(self).q.spec_contents(),
                    old(self).q.spec_header().c.spec_cluster_size(),
                    #[trigger] final(self).q.spec_cached()[i],
                ),
            crate::guest::spec_guest_read(
                old(self).q.spec_contents(),
                old(self).q.spec_reliable(),
                old(self).q.spec_header().c,
                old(self).l1@,
                pos,
                old(buf)@,
                final(buf)@,
                crate::error::spec_result(r),
            ),
            pos >= old(self).q.spec_header().c.size ==> crate::error::spec_result(r) == Ok::<
                usize,
                crate::error::ErrorView,
            >(0usize),
            old(self).q.spec_reliable() ==> final(self).q.spec_cached() == spec_cache_after_read(
                old(self).q.spec_cached(),
                old(self).q.spec_contents(),
                old(self).q.spec_header().c,
                old(self).l1@,
                pos as int,
                pos + crate::guest::spec_read_len(
                    old(self).q.spec_header().c.size,
                    pos,
                    old(buf)@.len(),
                ),
            ),
    {
        self.q.guest_read(&self.l1, pos, buf)
    }

    /// The size of the guest's disk in bytes.
    pub fn size(&self) -> (r: Result<Option<u64>, std::io::Error>)
        ensures
            r matches Ok(Some(size)) && size == old(self.q).spec_header().c.size,
    {
        Ok(Some(self.q.guest_size()))
    }
}

impl<I: Pread> Qcow2<I> {
    /// A reader of the guest's disk. It reads the L1 table into memory.
    pub fn reader<'a>(&'a mut self) -> (r: Result<Reader<'a, I>, Error>)
        ensures
            match r {
                Ok(reader) => {
                    &&& reader.q.spec_header() == old(self).spec_header()
                    &&& reader.q.spec_contents() == old(self).spec_contents()
                    &&& reader.q.spec_reliable() == old(self).spec_reliable()
                    &&& reader.q.spec_cached() == old(self).spec_cached()
                    &&& spec_reader_failure(old(self).spec_contents(), old(self).spec_header().c)
                        is None
                    &&& reader.l1@ == spec_l1_table(
                        old(self).spec_contents(),
                        old(self).spec_header().c,
                    )
                },
                Err(e) => {
                    ||| spec_reader_failure(old(self).spec_contents(), old(self).spec_header().c)
                        == Some(e@)
                    ||| !old(self).spec_reliable() && e@ == crate::error::ErrorView::Io
                },
            },
            r matches Ok(reader) ==> *final(self) == *final(reader.q),
            r is Err ==> *final(self) == *old(self),
    {
        let offset = self.header.c.l1_table_offset;
        Reader::new(self, offset)
    }
}

} // verus!
