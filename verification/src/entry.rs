//! The entries of the two levels of tables that map the guest's clusters
//! to places in the file.

use crate::error::Error;
use vstd::prelude::*;
use vstd::string::StringExecFns;

verus! {

/// The bit of an L1 entry that marks its table as shared with a snapshot.
pub const L1_COW: u64 = 0x8000_0000_0000_0000;

/// The bits of an L1 entry that must be zero: bits 56 to 62 and 0 to 8.
pub const L1_RESERVED: u64 = 0x7f00_0000_0000_01ff;

/// The bits of an L1 entry that hold the offset of its L2 table: bits 9 to
/// 55.
pub const L1_POS: u64 = 0x00ff_ffff_ffff_fe00;

/// The bit of an L2 entry that marks its cluster as shared with a snapshot.
pub const L2_COW: u64 = 0x8000_0000_0000_0000;

/// The bit of an L2 entry that marks its cluster as compressed.
pub const L2_COMPRESSED: u64 = 0x4000_0000_0000_0000;

/// The bit of an L2 entry whose cluster reads as zeros.
pub const L2_ZERO: u64 = 1;

/// The bits of an L2 entry that must be zero where the cluster is not
/// compressed: bits 56 to 61 and 1 to 8.
pub const L2_RESERVED: u64 = 0x3f00_0000_0000_01fe;

/// The bits of an L2 entry that hold the offset of its cluster: bits 9 to
/// 55.
pub const L2_POS: u64 = 0x00ff_ffff_ffff_fe00;

/// The bits of a compressed L2 entry below its two flags.
pub const L2_COMPRESSED_MASK: u64 = 0x3fff_ffff_ffff_ffff;

/// An entry of the L1 table.
#[derive(Debug, Clone, Copy, PartialEq, Eq)]
pub enum L1Entry {
    /// No L2 table: the clusters of this entry are not allocated.
    Empty,
    /// An L2 table at the offset `pos` of the file.
    Standard { pos: u64, cow: bool },
}

/// An entry of an L2 table.
#[derive(Debug, Clone, Copy, PartialEq, Eq)]
pub enum L2Entry {
    /// The cluster is not allocated.
    Empty,
    /// A cluster at the offset `pos` of the file, or one that reads as
    /// zeros.
    Standard { pos: u64, cow: bool, zero: bool },
    /// Compressed data of `size` bytes at the offset `pos` of the file.
    Compressed { pos: u64, cow: bool, size: u64 },
}

/// What the L1 entry `entry` says.
pub open spec fn spec_l1_parse(entry: u64) -> Result<L1Entry, crate::error::ErrorView> {
    if entry & L1_RESERVED != 0 {
        Err(crate::error::ErrorView::FileFormat("reserved bit used in L1 entry"@))
    } else if entry & L1_POS == 0 {
        Ok(L1Entry::Empty)
    } else {
        Ok(L1Entry::Standard { pos: entry & L1_POS, cow: entry & L1_COW != 0 })
    }
}

/// What the L2 entry `entry` says in an image whose clusters hold
/// 2^`cluster_bits` bytes. Of a compressed entry, the low
/// 62 - `cluster_bits` bits are the offset of the data, and the bits above
/// them, below the two flags, count its sectors of 512 bytes.
pub open spec fn spec_l2_parse(entry: u64, cluster_bits: u32) -> Result<
    L2Entry,
    crate::error::ErrorView,
> {
    if entry & L2_COMPRESSED != 0 {
        let x = (62 - cluster_bits) as u64;
        let low = entry & L2_COMPRESSED_MASK;
        Ok(
            L2Entry::Compressed {
                pos: low & (((1u64 << x) - 1) as u64),
                cow: entry & L2_COW != 0,
                size: ((low >> x) * 512) as u64,
            },
        )
    } else if entry & L2_RESERVED != 0 {
        Err(crate::error::ErrorView::FileFormat("reserved bit used in L2 entry"@))
    } else if entry & L2_POS != 0 {
        Ok(
            L2Entry::Standard {
                pos: entry & L2_POS,
                cow: entry & L2_COW != 0,
                zero: entry & L2_ZERO != 0,
            },
        )
    } else {
        Ok(L2Entry::Empty)
    }
}

impl L1Entry {
    /// Reads an L1 entry from its 64 bits.
    pub fn parse(entry: u64) -> (r: Result<L1Entry, Error>)
        ensures
            crate::error::spec_result(r) == spec_l1_parse(entry),
            r matches Ok(L1Entry::Standard { pos, .. }) ==> 0 < pos <= L1_POS,
    {
        if entry & L1_RESERVED != 0 {
            return Err(Error::FileFormat(String::from_str("reserved bit used in L1 entry")));
        }
        let pos = entry & L1_POS;
        if pos == 0 {
            return Ok(L1Entry::Empty);
        }
        assert(entry & 0x00ff_ffff_ffff_fe00 <= 0x00ff_ffff_ffff_fe00) by (bit_vector);
        Ok(L1Entry::Standard { pos, cow: (entry & L1_COW != 0) })
    }
}

impl L2Entry {
    /// Reads an L2 entry from its 64 bits, in an image whose clusters hold
    /// 2^`cluster_bits` bytes.
    pub fn parse(entry: u64, cluster_bits: u32) -> (r: Result<L2Entry, Error>)
        requires
            9 <= cluster_bits <= 22,
        ensures
            crate::error::spec_result(r) == spec_l2_parse(entry, cluster_bits),
            r matches Ok(L2Entry::Standard { pos, .. }) ==> 0 < pos <= L2_POS,
    {
        let cow = entry & L2_COW != 0;
        if entry & L2_COMPRESSED != 0 {
            let x: u32 = 62 - cluster_bits;
            let low = entry & L2_COMPRESSED_MASK;
            assert((1u64 << (x as u64)) >= 1) by (bit_vector)
                requires
                    40 <= x <= 53,
            ;
            assert(((entry & 0x3fff_ffff_ffff_ffff) >> (x as u64)) < 0x40_0000) by (bit_vector)
                requires
                    40 <= x <= 53,
            ;
            let pos = low & ((1u64 << x) - 1);
            let size = (low >> x) * 512;
            Ok(L2Entry::Compressed { pos, cow, size })
        } else {
            if entry & L2_RESERVED != 0 {
                return Err(Error::FileFormat(String::from_str("reserved bit used in L2 entry")));
            }
            let pos = entry & L2_POS;
            if pos != 0 {
                assert(entry & 0x00ff_ffff_ffff_fe00 <= 0x00ff_ffff_ffff_fe00) by (bit_vector);
                Ok(L2Entry::Standard { pos, cow, zero: (entry & L2_ZERO != 0) })
            } else {
                Ok(L2Entry::Empty)
            }
        }
    }
}

} // verus!
