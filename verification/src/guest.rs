//! The guest's disk as the image defines it: for each guest offset, the
//! byte that a read finds there, or the failure that it meets.

use crate::entry::L1Entry;
use crate::entry::L2Entry;
use crate::header::HeaderCommon;
use vstd::prelude::*;

verus! {

/// The L2 entry of the cluster that holds the guest offset `p`, in an image
/// with the bytes `file`, the shared header fields `c` and the bytes `l1`
/// of its L1 table.
///
/// The cluster's number, divided by the number of entries of an L2 table,
/// gives the index of its L1 entry, and the remainder the index of its L2
/// entry. An L1 entry is read from `l1`, an L2 table as one whole cluster of
/// `file`. An L1 entry without a table stands for unallocated clusters. An
/// entry that lies outside `l1`, or a table that lies outside `file`, fails
/// as a failed read does.
pub open spec fn spec_l2_entry(file: Seq<u8>, c: HeaderCommon, l1: Seq<u8>, p: int) -> Result<
    L2Entry,
    crate::error::ErrorView,
> {
    let cluster_size = c.spec_cluster_size() as int;
    let block = p / cluster_size;
    let l1_idx = block / (c.spec_l2_entries() as int);
    let l2_idx = block % (c.spec_l2_entries() as int);
    if l1_idx * 8 + 8 > l1.len() {
        Err(crate::error::ErrorView::Io)
    } else {
        match crate::entry::spec_l1_parse(crate::header::spec_u64_at(l1, l1_idx * 8)) {
            Err(e) => Err(e),
            Ok(L1Entry::Empty) => Ok(L2Entry::Empty),
            Ok(L1Entry::Standard { pos, .. }) => {
                if pos + cluster_size > file.len() {
                    Err(crate::error::ErrorView::Io)
                } else {
                    crate::entry::spec_l2_parse(
                        crate::header::spec_u64_at(file, pos + l2_idx * 8),
                        c.cluster_bits,
                    )
                }
            },
        }
    }
}

/// The offset in the file of the L2 table of the cluster that holds the
/// guest offset `p`, where the L1 table names one.
pub open spec fn spec_l2_table(c: HeaderCommon, l1: Seq<u8>, p: int) -> Option<u64> {
    let block = p / (c.spec_cluster_size() as int);
    let l1_idx = block / (c.spec_l2_entries() as int);
    if l1_idx * 8 + 8 > l1.len() {
        None
    } else {
        match crate::entry::spec_l1_parse(crate::header::spec_u64_at(l1, l1_idx * 8)) {
            Ok(L1Entry::Standard { pos, .. }) => Some(pos),
            _ => None,
        }
    }
}

/// The byte at the guest offset `p`, or the failure that a read of it
/// meets: zero in a cluster that is not allocated or is marked as zeros,
/// else the byte of the file at the cluster's place; a compressed cluster
/// cannot be read.
pub open spec fn spec_guest_byte(file: Seq<u8>, c: HeaderCommon, l1: Seq<u8>, p: int) -> Result<
    u8,
    crate::error::ErrorView,
> {
    match spec_l2_entry(file, c, l1, p) {
        Err(e) => Err(e),
        Ok(L2Entry::Empty) => Ok(0u8),
        Ok(L2Entry::Standard { pos, zero, .. }) => {
            let at = pos + p % (c.spec_cluster_size() as int);
            if zero {
                Ok(0u8)
            } else if at < file.len() {
                Ok(file[at])
            } else {
                Err(crate::error::ErrorView::Io)
            }
        },
        Ok(L2Entry::Compressed { .. }) => Err(
            crate::error::ErrorView::UnsupportedFeature("compressed blocks"@),
        ),
    }
}

/// The byte at the guest offset `pos + i`, or the failure of its read.
pub open spec fn spec_guest_at(
    file: Seq<u8>,
    c: HeaderCommon,
    l1: Seq<u8>,
    pos: int,
    i: int,
) -> Result<u8, crate::error::ErrorView> {
    spec_guest_byte(file, c, l1, pos + i)
}

/// How many bytes a read of `len` bytes at the guest offset `pos` is to
/// give, in a guest of `size` bytes: all but those behind the end.
pub open spec fn spec_read_len(size: u64, pos: u64, len: nat) -> nat {
    if pos >= size {
        0
    } else if len <= size - pos {
        len
    } else {
        (size - pos) as nat
    }
}

/// Whether a read of `want` bytes at the guest offset `pos` fails with `e`:
/// the read of one of the bytes fails so, and every byte before it can be
/// read.
pub open spec fn spec_read_fails(
    file: Seq<u8>,
    c: HeaderCommon,
    l1: Seq<u8>,
    pos: int,
    want: int,
    e: crate::error::ErrorView,
) -> bool {
    exists|i: int|
        0 <= i < want && #[trigger] spec_guest_at(file, c, l1, pos, i) == Err::<
            u8,
            crate::error::ErrorView,
        >(e) && forall|j: int| 0 <= j < i ==> (#[trigger] spec_guest_at(file, c, l1, pos, j)) is Ok
}

/// Whether a read at the guest offset `pos` into a buffer that held
/// `before` may leave `after` in it and return `r`.
///
/// The read is for the bytes of the buffer that lie before the guest's end.
/// It leaves the rest of the buffer as it was. Where it succeeds it returns
/// their number, and the buffer starts with the guest's bytes. It fails as
/// the first byte that cannot be read does, or, with a source that is not
/// reliable, as a failed read.
pub open spec fn spec_guest_read(
    file: Seq<u8>,
    reliable: bool,
    c: HeaderCommon,
    l1: Seq<u8>,
    pos: u64,
    before: Seq<u8>,
    after: Seq<u8>,
    r: Result<usize, crate::error::ErrorView>,
) -> bool {
    let want = spec_read_len(c.size, pos, before.len());
    &&& after.len() == before.len()
    &&& forall|i: int| want <= i < before.len() ==> after[i] == before[i]
    &&& match r {
        Ok(n) => n == want && forall|i: int|
            0 <= i < want ==> #[trigger] spec_guest_at(file, c, l1, pos as int, i) == Ok::<
                u8,
                crate::error::ErrorView,
            >(after[i]),
        Err(e) => spec_read_fails(file, c, l1, pos as int, want as int, e) || (!reliable && e
            == crate::error::ErrorView::Io),
    }
}

/// A read that succeeds gives as many bytes as the buffer holds before the
/// guest's end, none at or behind the end, and leaves the rest of the
/// buffer as it was.
pub proof fn lemma_read_count(
    file: Seq<u8>,
    reliable: bool,
    c: HeaderCommon,
    l1: Seq<u8>,
    pos: u64,
    before: Seq<u8>,
    after: Seq<u8>,
    n: usize,
)
    requires
        spec_guest_read(file, reliable, c, l1, pos, before, after, Ok(n)),
    ensures
        pos >= c.size ==> n == 0,
        pos < c.size ==> n == vstd::math::min(before.len() as int, c.size - pos),
        after.subrange(n as int, after.len() as int) == before.subrange(
            n as int,
            before.len() as int,
        ),
{
    assert(after.subrange(n as int, after.len() as int) =~= before.subrange(
        n as int,
        before.len() as int,
    ));
}

/// Two reads of the same guest range that succeed give the same bytes.
pub proof fn lemma_read_repeatable(
    file: Seq<u8>,
    reliable: bool,
    c: HeaderCommon,
    l1: Seq<u8>,
    pos: u64,
    before1: Seq<u8>,
    after1: Seq<u8>,
    n1: usize,
    before2: Seq<u8>,
    after2: Seq<u8>,
    n2: usize,
)
    requires
        before1.len() == before2.len(),
        spec_guest_read(file, reliable, c, l1, pos, before1, after1, Ok(n1)),
        spec_guest_read(file, reliable, c, l1, pos, before2, after2, Ok(n2)),
    ensures
        n1 == n2,
        after1.subrange(0, n1 as int) == after2.subrange(0, n2 as int),
{
    assert forall|i: int| 0 <= i < n1 implies after1[i] == after2[i] by {
        assert(spec_guest_at(file, c, l1, pos as int, i) == Ok::<u8, crate::error::ErrorView>(
            after1[i],
        ));
        assert(spec_guest_at(file, c, l1, pos as int, i) == Ok::<u8, crate::error::ErrorView>(
            after2[i],
        ));
    }
    assert(after1.subrange(0, n1 as int) =~= after2.subrange(0, n2 as int));
}

/// A read gives what a read of its first `len1` bytes gives, followed by
/// what a read at `len1` bytes further of the other bytes gives, where all
/// three succeed.
pub proof fn lemma_read_split(
    file: Seq<u8>,
    reliable: bool,
    c: HeaderCommon,
    l1: Seq<u8>,
    pos: u64,
    len1: nat,
    before: Seq<u8>,
    after: Seq<u8>,
    n: usize,
    before1: Seq<u8>,
    after1: Seq<u8>,
    n1: usize,
    before2: Seq<u8>,
    after2: Seq<u8>,
    n2: usize,
)
    requires
        pos + len1 <= u64::MAX,
        before1.len() == len1,
        before.len() == before1.len() + before2.len(),
        spec_guest_read(file, reliable, c, l1, pos, before, after, Ok(n)),
        spec_guest_read(file, reliable, c, l1, pos, before1, after1, Ok(n1)),
        spec_guest_read(
            file,
            reliable,
            c,
            l1,
            (pos + len1) as u64,
            before2,
            after2,
            Ok(n2),
        ),
    ensures
        n == n1 + n2,
        after.subrange(0, n as int) == after1.subrange(0, n1 as int) + after2.subrange(
            0,
            n2 as int,
        ),
{
    let joined = after1.subrange(0, n1 as int) + after2.subrange(0, n2 as int);
    assert forall|i: int| 0 <= i < n implies after[i] == joined[i] by {
        assert(spec_guest_at(file, c, l1, pos as int, i) == Ok::<u8, crate::error::ErrorView>(
            after[i],
        ));
        if i < n1 {
            assert(spec_guest_at(file, c, l1, pos as int, i) == Ok::<u8, crate::error::ErrorView>(
                after1[i],
            ));
        } else {
            assert(n1 == len1);
            assert(spec_guest_at(file, c, l1, pos + len1, i - n1) == Ok::<
                u8,
                crate::error::ErrorView,
            >(after2[i - n1]));
        }
    }
    assert(after.subrange(0, n as int) =~= joined);
}

/// A cluster that is not allocated reads as zeros.
pub proof fn lemma_unallocated_reads_zero(file: Seq<u8>, c: HeaderCommon, l1: Seq<u8>, p: int)
    requires
        spec_l2_entry(file, c, l1, p) == Ok::<L2Entry, crate::error::ErrorView>(L2Entry::Empty),
    ensures
        spec_guest_byte(file, c, l1, p) == Ok::<u8, crate::error::ErrorView>(0u8),
{
}

/// The bytes of one cluster share their L2 entry: the guest offset `a + k`
/// lies in the cluster of `a`, `k` bytes further, as long as that is
/// before the cluster's end.
pub proof fn lemma_same_cluster(file: Seq<u8>, c: HeaderCommon, l1: Seq<u8>, a: int, k: int)
    requires
        c.spec_cluster_size() > 0,
        0 <= a,
        0 <= k < c.spec_cluster_size() - a % (c.spec_cluster_size() as int),
    ensures
        spec_l2_entry(file, c, l1, a + k) == spec_l2_entry(file, c, l1, a),
        spec_l2_table(c, l1, a + k) == spec_l2_table(c, l1, a),
        (a + k) % (c.spec_cluster_size() as int) == a % (c.spec_cluster_size() as int) + k,
{
    let cs = c.spec_cluster_size() as int;
    vstd::arithmetic::div_mod::lemma_fundamental_div_mod(a, cs);
    vstd::arithmetic::div_mod::lemma_fundamental_div_mod_converse(
        a + k,
        cs,
        a / cs,
        a % cs + k,
    );
}

} // verus!
