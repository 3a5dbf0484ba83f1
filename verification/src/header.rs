//! The header of an image: its fixed fields, the fields of version 3, and
//! the extensions that follow them.

use crate::arith::div_ceil;
use crate::arith::div_rem;
use crate::arith::is_multiple_of;
use crate::arith::padding_to_multiple;
use crate::error::Error;
use crate::extension::Extension;
use crate::extension::FeatureNameTable;
use crate::extension::UnknownExtension;
use crate::extension::EXT_CODE_FEATURE_NAME_TABLE;
use crate::extension::EXT_CODE_NONE;
use crate::feature::Feature;
use crate::feature::FeatureKind;
use crate::io::Cursor;
use crate::io::Io;
use crate::io::ReadInt;
use crate::pread::Pread;
use crate::text::push_decimal;
use crate::text::push_hex;
use std::collections::HashSet;
use vstd::prelude::*;
use vstd::string::StringExecFns;

verus! {

/// The first four bytes of every image.
pub const MAGIC: u32 = 0x514649fb;

/// The one version of the format that is read.
pub const SUPPORTED_VERSION: u32 = 3;

/// The length in bytes of the fields that all versions share.
pub const HEADER_LENGTH_COMMON: u64 = 72;

/// The length in bytes of the fields of version 3, the shared ones included.
pub const HEADER_LENGTH_V3: u64 = 104;

/// The incompatible feature bit of an image whose reference counts may be
/// out of date.
pub const INCOMPATIBLE_DIRTY: u64 = 0b1;

/// The incompatible feature bit of an image that is known to be damaged.
pub const INCOMPATIBLE_CORRUPT: u64 = 0b10;

/// The compatible feature bit of lazy reference counts.
pub const COMPATIBLE_LAZY_REFCOUNTS: u64 = 0b1;

/// The autoclear feature bit of valid bitmaps.
pub const AUTOCLEAR_BITMAPS: u64 = 0b1;

/// The built-in names of the incompatible feature bits.
pub fn incompatible_names() -> (r: &'static [&'static str])
    ensures
        r@.len() == 2,
        r@[0]@ == "dirty"@,
        r@[1]@ == "corrupt"@,
{
    let names: &'static [&'static str; 2] = &["dirty", "corrupt"];
    names
}

/// The built-in names of the compatible feature bits.
pub fn compatible_names() -> (r: &'static [&'static str])
    ensures
        r@.len() == 1,
        r@[0]@ == "lazy refcounts"@,
{
    let names: &'static [&'static str; 1] = &["lazy refcounts"];
    names
}

/// The built-in names of the autoclear feature bits.
pub fn autoclear_names() -> (r: &'static [&'static str])
    ensures
        r@.len() == 1,
        r@[0]@ == "bitmaps"@,
{
    let names: &'static [&'static str; 1] = &["bitmaps"];
    names
}

/// The header fields that all versions of the format share, in the order
/// of the file.
#[derive(Debug, Clone, Copy, PartialEq, Eq)]
pub struct HeaderCommon {
    pub magic: u32,
    pub version: u32,
    pub backing_file_offset: u64,
    pub backing_file_size: u32,
    pub cluster_bits: u32,
    pub size: u64,
    pub crypt_method: u32,
    pub l1_size: u32,
    pub l1_table_offset: u64,
    pub refcount_table_offset: u64,
    pub refcount_table_clusters: u32,
    pub nb_snapshots: u32,
    pub snapshots_offset: u64,
}

impl Default for HeaderCommon {
    fn default() -> (r: Self)
        ensures
            r == spec_zero_common(),
    {
        HeaderCommon {
            magic: 0,
            version: 0,
            backing_file_offset: 0,
            backing_file_size: 0,
            cluster_bits: 0,
            size: 0,
            crypt_method: 0,
            l1_size: 0,
            l1_table_offset: 0,
            refcount_table_offset: 0,
            refcount_table_clusters: 0,
            nb_snapshots: 0,
            snapshots_offset: 0,
        }
    }
}

/// The shared fields, all zero.
pub open spec fn spec_zero_common() -> HeaderCommon {
    HeaderCommon {
        magic: 0,
        version: 0,
        backing_file_offset: 0,
        backing_file_size: 0,
        cluster_bits: 0,
        size: 0,
        crypt_method: 0,
        l1_size: 0,
        l1_table_offset: 0,
        refcount_table_offset: 0,
        refcount_table_clusters: 0,
        nb_snapshots: 0,
        snapshots_offset: 0,
    }
}

impl HeaderCommon {
    /// The size of a cluster in bytes.
    pub open spec fn spec_cluster_size(self) -> nat {
        vstd::arithmetic::power2::pow2(self.cluster_bits as nat)
    }

    /// The number of entries of one L2 table.
    pub open spec fn spec_l2_entries(self) -> nat {
        self.spec_cluster_size() / 8
    }

    /// The number of clusters that the guest's disk spans.
    pub open spec fn spec_max_virtual_blocks(self) -> nat {
        crate::arith::spec_div_ceil(self.size as nat, self.spec_cluster_size())
    }

    /// The number of entries of the L1 table.
    pub open spec fn spec_l1_entries(self) -> nat {
        crate::arith::spec_div_ceil(self.spec_max_virtual_blocks(), self.spec_l2_entries())
    }

    /// The first rule that the shared fields break, if they break one.
    pub open spec fn spec_validate(self) -> Option<crate::error::ErrorView> {
        if self.magic != MAGIC {
            Some(crate::error::ErrorView::FileType)
        } else if self.version != SUPPORTED_VERSION {
            Some(crate::error::ErrorView::Version(self.version))
        } else if self.backing_file_offset != 0 {
            Some(crate::error::ErrorView::UnsupportedFeature("backing file"@))
        } else if self.cluster_bits < 9 || self.cluster_bits > 22 {
            Some(
                crate::error::ErrorView::FileFormat(
                    "bad cluster_bits "@ + crate::text::spec_decimal(self.cluster_bits as nat),
                ),
            )
        } else if self.crypt_method != 0 {
            Some(crate::error::ErrorView::UnsupportedFeature("encryption"@))
        } else if self.l1_size != self.spec_l1_entries() {
            Some(crate::error::ErrorView::FileFormat("bad L1 entry count"@))
        } else if self.l1_table_offset as nat % self.spec_cluster_size() != 0 {
            Some(crate::error::ErrorView::FileFormat("bad L1 offset"@))
        } else if self.refcount_table_offset as nat % self.spec_cluster_size() != 0 {
            Some(crate::error::ErrorView::FileFormat("bad refcount offset"@))
        } else if self.snapshots_offset as nat % self.spec_cluster_size() != 0 {
            Some(crate::error::ErrorView::FileFormat("bad snapshots offset"@))
        } else {
            None
        }
    }
}

/// A cluster of 2^9 to 2^22 bytes holds 512 bytes to 4 MiB, a multiple of
/// eight.
pub proof fn lemma_cluster_size(bits: nat)
    requires
        9 <= bits <= 22,
    ensures
        512 <= vstd::arithmetic::power2::pow2(bits) <= 4194304,
        vstd::arithmetic::power2::pow2(bits) % 8 == 0,
        vstd::arithmetic::power2::pow2(bits) / 8 == vstd::arithmetic::power2::pow2(
            (bits - 3) as nat,
        ),
{
    vstd::arithmetic::power2::lemma2_to64();
}

/// The header fields of version 3, and what the extensions hold.
pub struct HeaderV3 {
    pub incompatible: Feature,
    pub compatible: Feature,
    pub autoclear: Feature,
    pub refcount_order: u32,
    pub header_length: u32,
    pub feature_name_table: FeatureNameTable,
    pub unknown_extensions: Vec<UnknownExtension>,
    pub backing_file_name: Vec<u8>,
}

/// The version 3 part of a header as plain values.
pub ghost struct HeaderV3View {
    pub incompatible: crate::feature::FeatureSet,
    pub compatible: crate::feature::FeatureSet,
    pub autoclear: crate::feature::FeatureSet,
    pub refcount_order: u32,
    pub header_length: u32,
    pub feature_name_table: Seq<crate::extension::FeatureNameView>,
    pub unknown_extensions: Seq<crate::extension::UnknownExtensionView>,
    pub backing_file_name: Seq<u8>,
}

impl View for HeaderV3 {
    type V = HeaderV3View;

    open spec fn view(&self) -> HeaderV3View {
        HeaderV3View {
            incompatible: self.incompatible@,
            compatible: self.compatible@,
            autoclear: self.autoclear@,
            refcount_order: self.refcount_order,
            header_length: self.header_length,
            feature_name_table: self.feature_name_table@,
            unknown_extensions: self.unknown_extensions@.map_values(|u: UnknownExtension| u@),
            backing_file_name: self.backing_file_name@,
        }
    }
}

impl Default for HeaderV3 {
    fn default() -> (r: Self)
        ensures
            r@ == spec_empty_v3(),
    {
        let r = HeaderV3 {
            incompatible: Feature::new(FeatureKind::Incompatible, incompatible_names()),
            compatible: Feature::new(FeatureKind::Compatible, compatible_names()),
            autoclear: Feature::new(FeatureKind::Autoclear, autoclear_names()),
            refcount_order: 0,
            header_length: 0,
            feature_name_table: FeatureNameTable::new(),
            unknown_extensions: Vec::new(),
            backing_file_name: Vec::new(),
        };
        proof {
            assert(r.incompatible@.names =~= seq!["dirty"@, "corrupt"@]);
            assert(r.compatible@.names =~= seq!["lazy refcounts"@]);
            assert(r.autoclear@.names =~= seq!["bitmaps"@]);
            assert(r@.unknown_extensions =~= Seq::empty());
        }
        r
    }
}

/// The version 3 part of a header before anything is read: no feature
/// bits, the built-in names, no extensions.
pub open spec fn spec_empty_v3() -> HeaderV3View {
    HeaderV3View {
        incompatible: crate::feature::FeatureSet {
            bits: 0,
            kind: FeatureKind::Incompatible,
            names: seq!["dirty"@, "corrupt"@],
        },
        compatible: crate::feature::FeatureSet {
            bits: 0,
            kind: FeatureKind::Compatible,
            names: seq!["lazy refcounts"@],
        },
        autoclear: crate::feature::FeatureSet {
            bits: 0,
            kind: FeatureKind::Autoclear,
            names: seq!["bitmaps"@],
        },
        refcount_order: 0,
        header_length: 0,
        feature_name_table: Seq::empty(),
        unknown_extensions: Seq::empty(),
        backing_file_name: Seq::empty(),
    }
}

/// The header of an image.
pub struct Header {
    pub c: HeaderCommon,
    pub v3: HeaderV3,
}

/// A header as plain values.
pub ghost struct HeaderView {
    pub c: HeaderCommon,
    pub v3: HeaderV3View,
}

impl View for Header {
    type V = HeaderView;

    open spec fn view(&self) -> HeaderView {
        HeaderView { c: self.c, v3: self.v3@ }
    }
}

impl Default for Header {
    fn default() -> (r: Self)
        ensures
            r@ == (HeaderView { c: spec_zero_common(), v3: spec_empty_v3() }),
    {
        Header { c: HeaderCommon::default(), v3: HeaderV3::default() }
    }
}

impl HeaderView {
    /// The rules that hold of every header that was read without failure:
    /// the shared fields are valid, every set incompatible bit has a
    /// built-in name and is not the corrupt bit, the reference count order is
    /// at most six, and the header length covers the fields of version 3.
    pub open spec fn valid(self) -> bool {
        &&& self.c.spec_validate() is None
        &&& self.v3.incompatible.unknown_bits() == 0
        &&& self.v3.incompatible.bits & INCOMPATIBLE_CORRUPT == 0
        &&& self.v3.refcount_order <= 6
        &&& self.v3.header_length >= HEADER_LENGTH_V3
    }
}

/// The failure of a result, if it is one, as plain values.
pub open spec fn spec_failure<T>(r: Result<T, Error>) -> Option<crate::error::ErrorView> {
    match r {
        Ok(_) => None,
        Err(e) => Some(e@),
    }
}

/// The 32-bit integer that `file` holds at offset `pos`.
pub open spec fn spec_u32_at(file: Seq<u8>, pos: int) -> u32 {
    crate::io::be_value(file.subrange(pos, pos + 4)) as u32
}

/// The 64-bit integer that `file` holds at offset `pos`.
pub open spec fn spec_u64_at(file: Seq<u8>, pos: int) -> u64 {
    crate::io::be_value(file.subrange(pos, pos + 8)) as u64
}

/// The shared fields as the first 72 bytes of `file` spell them.
pub open spec fn spec_common(file: Seq<u8>) -> HeaderCommon {
    HeaderCommon {
        magic: spec_u32_at(file, 0),
        version: spec_u32_at(file, 4),
        backing_file_offset: spec_u64_at(file, 8),
        backing_file_size: spec_u32_at(file, 16),
        cluster_bits: spec_u32_at(file, 20),
        size: spec_u64_at(file, 24),
        crypt_method: spec_u32_at(file, 32),
        l1_size: spec_u32_at(file, 36),
        l1_table_offset: spec_u64_at(file, 40),
        refcount_table_offset: spec_u64_at(file, 48),
        refcount_table_clusters: spec_u32_at(file, 56),
        nb_snapshots: spec_u32_at(file, 60),
        snapshots_offset: spec_u64_at(file, 64),
    }
}

/// Where reading the extensions ends, and with what.
pub ghost struct ExtensionsOutcome {
    /// The offset behind the last byte that was read.
    pub end: int,
    /// The feature name table as it then is.
    pub table: Seq<crate::extension::FeatureNameView>,
    /// The unknown extensions as they then are.
    pub unknown: Seq<crate::extension::UnknownExtensionView>,
    /// The failure that ended the reading, if one did.
    pub error: Option<crate::error::ErrorView>,
}

/// What reading the extensions of `file` from offset `pos` on gives, where
/// the extensions with the codes `seen` were read before and left `table`
/// and `unknown`.
///
/// An extension is a code, a length, a payload of that length and padding
/// to a multiple of eight bytes. The code zero ends the list. An extension
/// must end within the first cluster, and no code may come twice.
pub open spec fn spec_read_extensions(
    file: Seq<u8>,
    pos: int,
    cluster_size: int,
    seen: Set<u32>,
    table: Seq<crate::extension::FeatureNameView>,
    unknown: Seq<crate::extension::UnknownExtensionView>,
) -> ExtensionsOutcome
    decreases cluster_size + 8 - pos,
{
    let failed = |end: int, e: crate::error::ErrorView|
        ExtensionsOutcome { end, table, unknown, error: Some(e) };
    if pos < 0 || pos + 4 > file.len() {
        failed(pos, crate::error::ErrorView::Io)
    } else if pos + 8 > file.len() {
        failed(pos + 4, crate::error::ErrorView::Io)
    } else {
        let code = spec_u32_at(file, pos);
        let len = spec_u32_at(file, pos + 4) as int;
        let body = pos + 8;
        let pad = crate::arith::spec_padding(len as nat, 8) as int;
        if code == EXT_CODE_NONE {
            ExtensionsOutcome { end: body, table, unknown, error: None }
        } else if len + body > cluster_size {
            failed(
                body,
                crate::error::ErrorView::FileFormat("complete header too big for first cluster"@),
            )
        } else if seen.contains(code) {
            failed(
                body,
                crate::error::ErrorView::FileFormat(
                    "duplicate header extension "@ + crate::text::spec_hex(code as nat),
                ),
            )
        } else if body + len > file.len() {
            failed(body, crate::error::ErrorView::Io)
        } else {
            let payload = file.subrange(body, body + len);
            let names = crate::extension::spec_read_names(payload, 0, table);
            if code == EXT_CODE_FEATURE_NAME_TABLE && names.1 is Some {
                ExtensionsOutcome { end: body + len, table: names.0, unknown, error: names.1 }
            } else {
                let table2 = if code == EXT_CODE_FEATURE_NAME_TABLE {
                    names.0
                } else {
                    table
                };
                let unknown2 = if code == EXT_CODE_FEATURE_NAME_TABLE {
                    unknown
                } else {
                    unknown.push(crate::extension::UnknownExtensionView { code, data: payload })
                };
                if pad > 0 && body + len + pad > file.len() {
                    ExtensionsOutcome {
                        end: body + len,
                        table: table2,
                        unknown: unknown2,
                        error: Some(crate::error::ErrorView::Io),
                    }
                } else {
                    spec_read_extensions(
                        file,
                        body + len + pad,
                        cluster_size,
                        seen.insert(code),
                        table2,
                        unknown2,
                    )
                }
            }
        }
    }
}

/// The first rule that a header breaks once its extensions are read, if it
/// breaks one. The extensions started at offset `start` and ended at `end`.
pub open spec fn spec_validate_v3(h: HeaderView, start: int, end: int) -> Option<
    crate::error::ErrorView,
> {
    if h.v3.incompatible.bits & INCOMPATIBLE_CORRUPT != 0 {
        Some(crate::error::ErrorView::UnsupportedFeature("corrupt bit"@))
    } else if h.v3.incompatible.unknown_bits() != 0 {
        Some(
            crate::error::ErrorView::UnsupportedFeature(
                crate::feature::spec_render(
                    h.v3.incompatible.unknown_bits(),
                    h.v3.incompatible.kind,
                    h.v3.incompatible.names,
                    h.v3.feature_name_table,
                ),
            ),
        )
    } else if h.v3.refcount_order > 6 {
        Some(
            crate::error::ErrorView::FileFormat(
                "bad refcount_order "@ + crate::text::spec_decimal(h.v3.refcount_order as nat),
            ),
        )
    } else if h.v3.header_length != start {
        Some(
            crate::error::ErrorView::FileFormat(
                "header is "@ + crate::text::spec_decimal(start as nat) + " bytes, file claims "@
                    + crate::text::spec_decimal(h.v3.header_length as nat),
            ),
        )
    } else if end > h.c.spec_cluster_size() {
        Some(crate::error::ErrorView::FileFormat("complete header too big for first cluster"@))
    } else {
        None
    }
}

/// The offset at which the extensions of a header start: behind the fields
/// of version 3, or at the header length that the file claims where that is
/// more.
pub open spec fn spec_extensions_start(header_length: u32) -> int {
    if header_length > HEADER_LENGTH_V3 {
        header_length as int
    } else {
        HEADER_LENGTH_V3 as int
    }
}

/// The header `h` with the version 3 fields that `file` holds.
pub open spec fn spec_with_v3_fields(h: HeaderView, file: Seq<u8>) -> HeaderView {
    HeaderView {
        c: h.c,
        v3: HeaderV3View {
            incompatible: crate::feature::FeatureSet {
                bits: spec_u64_at(file, 72),
                ..h.v3.incompatible
            },
            compatible: crate::feature::FeatureSet {
                bits: spec_u64_at(file, 80),
                ..h.v3.compatible
            },
            autoclear: crate::feature::FeatureSet {
                bits: spec_u64_at(file, 88),
                ..h.v3.autoclear
            },
            refcount_order: spec_u32_at(file, 96),
            header_length: spec_u32_at(file, 100),
            ..h.v3
        },
    }
}

/// The header `h` with the extensions of `out`.
pub open spec fn spec_with_extensions(h: HeaderView, out: ExtensionsOutcome) -> HeaderView {
    HeaderView {
        c: h.c,
        v3: HeaderV3View { feature_name_table: out.table, unknown_extensions: out.unknown, ..h.v3 },
    }
}

/// What reading the header of `file` into the header `h` gives: the header
/// as it then is, and the failure that ended the reading, if one did.
///
/// The shared fields are read and checked, then the fields of version 3,
/// then the extensions; then the whole is checked. A file that ends before
/// a field that is read fails as a failed read does.
pub open spec fn spec_read_header(file: Seq<u8>, h: HeaderView) -> (
    HeaderView,
    Option<crate::error::ErrorView>,
) {
    if file.len() < HEADER_LENGTH_COMMON {
        (h, Some(crate::error::ErrorView::Io))
    } else {
        let h1 = HeaderView { c: spec_common(file), v3: h.v3 };
        if h1.c.spec_validate() is Some {
            (h1, h1.c.spec_validate())
        } else if file.len() < HEADER_LENGTH_V3 {
            (h1, Some(crate::error::ErrorView::Io))
        } else {
            let h2 = spec_with_v3_fields(h1, file);
            let start = spec_extensions_start(h2.v3.header_length);
            let out = spec_read_extensions(
                file,
                start,
                h2.c.spec_cluster_size() as int,
                Set::empty(),
                h2.v3.feature_name_table,
                h2.v3.unknown_extensions,
            );
            let h3 = spec_with_extensions(h2, out);
            if out.error is Some {
                (h3, out.error)
            } else {
                (h3, spec_validate_v3(h3, start, out.end))
            }
        }
    }
}

/// Whether reading the header of a source with the bytes `file` may leave
/// the header `after` and end with `error`, where it started on `before`:
/// as `spec_read_header` says, or with a failed read of a source that is not
/// reliable.
pub open spec fn spec_read_outcome(
    file: Seq<u8>,
    reliable: bool,
    before: HeaderView,
    after: HeaderView,
    error: Option<crate::error::ErrorView>,
) -> bool {
    ||| spec_read_header(file, before) == (after, error)
    ||| (!reliable && error == Some(crate::error::ErrorView::Io))
}

/// A header that was read without failure keeps the rules of the format.
/// Its extensions start at the header length that the file claims, which is
/// the number of bytes before the first extension, and end within the first
/// cluster.
pub proof fn lemma_accepted_header(file: Seq<u8>, before: HeaderView)
    requires
        spec_read_header(file, before).1 is None,
    ensures
        spec_read_header(file, before).0.valid(),
        spec_read_header(file, before).0.c == spec_common(file),
        spec_read_header(file, before).0.v3.header_length == spec_u32_at(file, 100),
        spec_read_header(file, before).0.v3.header_length == spec_extensions_start(
            spec_u32_at(file, 100),
        ),
        spec_read_extensions(
            file,
            spec_u32_at(file, 100) as int,
            spec_common(file).spec_cluster_size() as int,
            Set::empty(),
            before.v3.feature_name_table,
            before.v3.unknown_extensions,
        ).end <= spec_common(file).spec_cluster_size(),
{
}

fn next_u32<'a, I: Pread>(cur: &mut Cursor<'a, I>) -> (r: Result<u32, Error>)
    requires
        old(cur).pos + 4 <= u64::MAX,
    ensures
        final(cur).contents() == old(cur).contents(),
        final(cur).reliable() == old(cur).reliable(),
        r is Ok ==> old(cur).pos + 4 <= old(cur).contents().len(),
        r matches Ok(v) ==> v == spec_u32_at(old(cur).contents(), old(cur).pos as int),
        r is Ok ==> final(cur).pos == old(cur).pos + 4,
        r matches Err(e) ==> e@ is Io && final(cur).pos == old(cur).pos,
        old(cur).reliable() && old(cur).pos + 4 <= old(cur).contents().len() ==> r is Ok,
{
    match cur.read_u32() {
        Ok(v) => Ok(v),
        Err(e) => Err(Error::Io(e)),
    }
}

fn next_u64<'a, I: Pread>(cur: &mut Cursor<'a, I>) -> (r: Result<u64, Error>)
    requires
        old(cur).pos + 8 <= u64::MAX,
    ensures
        final(cur).contents() == old(cur).contents(),
        final(cur).reliable() == old(cur).reliable(),
        r is Ok ==> old(cur).pos + 8 <= old(cur).contents().len(),
        r matches Ok(v) ==> v == spec_u64_at(old(cur).contents(), old(cur).pos as int),
        r is Ok ==> final(cur).pos == old(cur).pos + 8,
        r matches Err(e) ==> e@ is Io && final(cur).pos == old(cur).pos,
        old(cur).reliable() && old(cur).pos + 8 <= old(cur).contents().len() ==> r is Ok,
{
    match cur.read_u64() {
        Ok(v) => Ok(v),
        Err(e) => Err(Error::Io(e)),
    }
}

impl Header {
    /// Checks the shared fields against the rules of the format, in the
    /// order of `spec_validate`.
    pub fn validate_common(&self) -> (r: Result<(), Error>)
        ensures
            r is Ok <==> self.c.spec_validate() is None,
            r matches Err(e) ==> self.c.spec_validate() == Some(e@),
    {
        if self.c.magic != MAGIC {
            return Err(Error::FileType);
        }
        if self.c.version != SUPPORTED_VERSION {
            return Err(Error::Version(self.c.version));
        }
        if self.c.backing_file_offset != 0 {
            return Err(Error::UnsupportedFeature(String::from_str("backing file")));
        }
        if self.c.cluster_bits < 9 || self.c.cluster_bits > 22 {
            let mut msg = String::from_str("bad cluster_bits ");
            push_decimal(&mut msg, self.c.cluster_bits as u64);
            return Err(Error::FileFormat(msg));
        }
        if self.c.crypt_method != 0 {
            return Err(Error::UnsupportedFeature(String::from_str("encryption")));
        }
        proof {
            lemma_cluster_size(self.c.cluster_bits as nat);
        }
        if self.c.l1_size as u64 != self.l1_entries() {
            return Err(Error::FileFormat(String::from_str("bad L1 entry count")));
        }
        if !is_multiple_of(self.c.l1_table_offset, self.cluster_size()) {
            return Err(Error::FileFormat(String::from_str("bad L1 offset")));
        }
        if !is_multiple_of(self.c.refcount_table_offset, self.cluster_size()) {
            return Err(Error::FileFormat(String::from_str("bad refcount offset")));
        }
        if !is_multiple_of(self.c.snapshots_offset, self.cluster_size()) {
            return Err(Error::FileFormat(String::from_str("bad snapshots offset")));
        }
        Ok(())
    }

    // Reads the shared fields and checks them. A failed read leaves the
    // header as it was.
    fn read_common<'a, I: Pread>(&mut self, cur: &mut Cursor<'a, I>) -> (r: Result<(), Error>)
        requires
            old(cur).pos == 0,
        ensures
            final(cur).contents() == old(cur).contents(),
            final(cur).reliable() == old(cur).reliable(),
            final(self).v3 == old(self).v3,
            r is Ok ==> final(cur).pos == HEADER_LENGTH_COMMON,
            r is Ok ==> old(cur).contents().len() >= HEADER_LENGTH_COMMON,
            r is Ok ==> final(self).c == spec_common(old(cur).contents())
                && final(self).c.spec_validate() is None,
            r matches Err(e) ==> {
                ||| e@ is Io && final(self).c == old(self).c && (!old(cur).reliable()
                    || old(cur).contents().len() < HEADER_LENGTH_COMMON)
                ||| old(cur).contents().len() >= HEADER_LENGTH_COMMON && final(self).c
                    == spec_common(old(cur).contents()) && final(self).c.spec_validate() == Some(
                    e@,
                )
            },
    {
        let magic = match next_u32(cur) {
            Ok(v) => v,
            Err(e) => return Err(e),
        };
        let version = match next_u32(cur) {
            Ok(v) => v,
            Err(e) => return Err(e),
        };
        let backing_file_offset = match next_u64(cur) {
            Ok(v) => v,
            Err(e) => return Err(e),
        };
        let backing_file_size = match next_u32(cur) {
            Ok(v) => v,
            Err(e) => return Err(e),
        };
        let cluster_bits = match next_u32(cur) {
            Ok(v) => v,
            Err(e) => return Err(e),
        };
        let size = match next_u64(cur) {
            Ok(v) => v,
            Err(e) => return Err(e),
        };
        let crypt_method = match next_u32(cur) {
            Ok(v) => v,
            Err(e) => return Err(e),
        };
        let l1_size = match next_u32(cur) {
            Ok(v) => v,
            Err(e) => return Err(e),
        };
        let l1_table_offset = match next_u64(cur) {
            Ok(v) => v,
            Err(e) => return Err(e),
        };
        let refcount_table_offset = match next_u64(cur) {
            Ok(v) => v,
            Err(e) => return Err(e),
        };
        let refcount_table_clusters = match next_u32(cur) {
            Ok(v) => v,
            Err(e) => return Err(e),
        };
        let nb_snapshots = match next_u32(cur) {
            Ok(v) => v,
            Err(e) => return Err(e),
        };
        let snapshots_offset = match next_u64(cur) {
            Ok(v) => v,
            Err(e) => return Err(e),
        };
        self.c = HeaderCommon {
            magic,
            version,
            backing_file_offset,
            backing_file_size,
            cluster_bits,
            size,
            crypt_method,
            l1_size,
            l1_table_offset,
            refcount_table_offset,
            refcount_table_clusters,
            nb_snapshots,
            snapshots_offset,
        };
        self.validate_common()
    }

    /// The size of a cluster in bytes.
    pub fn cluster_size(&self) -> (r: u64)
        requires
            self.c.cluster_bits < 64,
        ensures
            r == self.c.spec_cluster_size(),
            r > 0,
            9 <= self.c.cluster_bits <= 22 ==> 512 <= r <= 4194304,
    {
        proof {
            vstd::bits::lemma_u64_pow2_no_overflow(self.c.cluster_bits as nat);
            vstd::bits::lemma_u64_shl_is_mul(1, self.c.cluster_bits as u64);
            vstd::arithmetic::power2::lemma_pow2_pos(self.c.cluster_bits as nat);
            if 9 <= self.c.cluster_bits <= 22 {
                lemma_cluster_size(self.c.cluster_bits as nat);
            }
        }
        1u64 << self.c.cluster_bits
    }

    /// The size of the guest's disk in bytes.
    pub fn guest_size(&self) -> (r: u64)
        ensures
            r == self.c.size,
    {
        self.c.size
    }

    /// The number of clusters that the guest's disk spans.
    pub fn max_virtual_blocks(&self) -> (r: u64)
        requires
            self.c.cluster_bits < 64,
        ensures
            r == self.c.spec_max_virtual_blocks(),
    {
        div_ceil(self.c.size, self.cluster_size())
    }

    /// The number of entries of one L2 table.
    pub fn l2_entries(&self) -> (r: u64)
        requires
            self.c.cluster_bits < 64,
        ensures
            r == self.c.spec_l2_entries(),
            self.c.cluster_bits >= 3 ==> r > 0,
    {
        proof {
            if self.c.cluster_bits >= 3 {
                vstd::arithmetic::power2::lemma2_to64();
                if self.c.cluster_bits > 3 {
                    vstd::arithmetic::power2::lemma_pow2_strictly_increases(
                        3,
                        self.c.cluster_bits as nat,
                    );
                }
            }
        }
        self.cluster_size() / 8
    }

    /// The number of entries of the L1 table.
    pub fn l1_entries(&self) -> (r: u64)
        requires
            3 <= self.c.cluster_bits < 64,
        ensures
            r == self.c.spec_l1_entries(),
    {
        div_ceil(self.max_virtual_blocks(), self.l2_entries())
    }

    /// Where the guest offset `pos` lies: the index of its L2 table in the
    /// L1 table, the index of its cluster in that L2 table, and its offset
    /// in the cluster.
    pub fn guest_offset_info(&self, pos: u64) -> (r: (u64, u64, u64))
        requires
            3 <= self.c.cluster_bits < 64,
        ensures
            r.0 == (pos as nat / self.c.spec_cluster_size()) / self.c.spec_l2_entries(),
            r.1 == (pos as nat / self.c.spec_cluster_size()) % self.c.spec_l2_entries(),
            r.2 == pos as nat % self.c.spec_cluster_size(),
    {
        let (block_idx, block_offset) = div_rem(pos, self.cluster_size());
        let (l1_l2_idx, l2_block_idx) = div_rem(block_idx, self.l2_entries());
        (l1_l2_idx, l2_block_idx, block_offset)
    }
}

impl Header {
    // Reads the extensions from the cursor on, until the one that ends the
    // list.
    fn read_extensions<'a, I: Pread>(&mut self, cur: &mut Cursor<'a, I>) -> (r: Result<(), Error>)
        requires
            9 <= old(self).c.cluster_bits <= 22,
            old(cur).pos <= u32::MAX,
        ensures
            final(cur).contents() == old(cur).contents(),
            final(cur).reliable() == old(cur).reliable(),
            ({
                let out = spec_read_extensions(
                    old(cur).contents(),
                    old(cur).pos as int,
                    old(self).c.spec_cluster_size() as int,
                    Set::empty(),
                    old(self)@.v3.feature_name_table,
                    old(self)@.v3.unknown_extensions,
                );
                ||| {
                    &&& final(self)@ == spec_with_extensions(old(self)@, out)
                    &&& spec_failure(r) == out.error
                    &&& r is Ok ==> final(cur).pos == out.end
                }
                ||| !old(cur).reliable() && spec_failure(r) == Some(crate::error::ErrorView::Io)
            }),
    {
        broadcast use vstd::std_specs::hash::group_hash_axioms;

        let cluster_size = self.cluster_size();
        let ghost file = cur.contents();
        let ghost start = cur.pos as int;
        let ghost before = self@;
        let mut seen = HashSet::<u32>::new();
        loop
            invariant
                cur.contents() == file,
                file == old(cur).contents(),
                start == old(cur).pos,
                before == old(self)@,
                cur.reliable() == old(cur).reliable(),
                cur.pos <= u32::MAX,
                9 <= self.c.cluster_bits <= 22,
                cluster_size == self.c.spec_cluster_size(),
                self@ == spec_with_extensions(
                    before,
                    ExtensionsOutcome {
                        end: 0,
                        table: self@.v3.feature_name_table,
                        unknown: self@.v3.unknown_extensions,
                        error: None,
                    },
                ),
                spec_read_extensions(
                    file,
                    start,
                    cluster_size as int,
                    Set::empty(),
                    before.v3.feature_name_table,
                    before.v3.unknown_extensions,
                ) == spec_read_extensions(
                    file,
                    cur.pos as int,
                    cluster_size as int,
                    seen@,
                    self@.v3.feature_name_table,
                    self@.v3.unknown_extensions,
                ),
            decreases cluster_size + 8 - cur.pos,
        {
            proof {
                lemma_cluster_size(self.c.cluster_bits as nat);
            }
            let ghost pos = cur.pos as int;
            let code = match next_u32(cur) {
                Ok(v) => v,
                Err(e) => return Err(e),
            };
            let len = match next_u32(cur) {
                Ok(v) => v,
                Err(e) => return Err(e),
            };
            if code == EXT_CODE_NONE {
                return Ok(());
            }
            if len as u64 + cur.position() > cluster_size {
                // Don't try to read too much dynamic data!
                return Err(
                    Error::FileFormat(
                        String::from_str("complete header too big for first cluster"),
                    ),
                );
            }
            // No duplicates allowed.
            if seen.contains(&code) {
                let mut msg = String::from_str("duplicate header extension ");
                push_hex(&mut msg, code as u64);
                return Err(Error::FileFormat(msg));
            }
            seen.insert(code);

            let mut payload: Vec<u8> = vec![0u8; len as usize];
            match cur.read_exact(payload.as_mut_slice()) {
                Ok(()) => {},
                Err(e) => return Err(Error::Io(e)),
            }
            assert(payload@ =~= file.subrange(pos + 8, pos + 8 + len));
            let used = if code == EXT_CODE_FEATURE_NAME_TABLE {
                match self.v3.feature_name_table.read(payload.as_slice()) {
                    Ok(n) => n,
                    Err(e) => return Err(e),
                }
            } else {
                let ghost unknown = self@.v3.unknown_extensions;
                let mut ext = UnknownExtension::new(code);
                let n = match ext.read(payload.as_slice()) {
                    Ok(n) => n,
                    Err(e) => return Err(e),
                };
                assert(ext.data@ =~= payload@);
                self.v3.unknown_extensions.push(ext);
                assert(self@.v3.unknown_extensions =~= unknown.push(
                    crate::extension::UnknownExtensionView { code, data: payload@ },
                ));
                n
            };
            // Verify all is read.
            let remain = payload.len() - used;
            if remain > 0 {
                let mut msg = String::new();
                push_decimal(&mut msg, remain as u64);
                msg.append(" bytes left after reading extension ");
                push_hex(&mut msg, code as u64);
                return Err(Error::FileFormat(msg));
            }
            // Read padding.

            let mut pad: Vec<u8> = vec![0u8; padding_to_multiple(len as u64, 8)];
            match cur.read_exact(pad.as_mut_slice()) {
                Ok(()) => {},
                Err(e) => return Err(Error::Io(e)),
            }
        }
    }

    // Reads the fields of version 3 and the extensions, and checks the
    // whole.
    fn read_v3<'a, I: Pread>(&mut self, cur: &mut Cursor<'a, I>) -> (r: Result<(), Error>)
        requires
            old(cur).pos == HEADER_LENGTH_COMMON,
            old(cur).contents().len() >= HEADER_LENGTH_COMMON,
            old(self).c == spec_common(old(cur).contents()),
            old(self).c.spec_validate() is None,
        ensures
            spec_read_outcome(
                old(cur).contents(),
                old(cur).reliable(),
                old(self)@,
                final(self)@,
                spec_failure(r),
            ),
    {
        let incompatible = match next_u64(cur) {
            Ok(v) => v,
            Err(e) => return Err(e),
        };
        let compatible = match next_u64(cur) {
            Ok(v) => v,
            Err(e) => return Err(e),
        };
        let autoclear = match next_u64(cur) {
            Ok(v) => v,
            Err(e) => return Err(e),
        };
        let refcount_order = match next_u32(cur) {
            Ok(v) => v,
            Err(e) => return Err(e),
        };
        let header_length = match next_u32(cur) {
            Ok(v) => v,
            Err(e) => return Err(e),
        };
        self.v3.incompatible.set(incompatible);
        self.v3.compatible.set(compatible);
        self.v3.autoclear.set(autoclear);
        self.v3.refcount_order = refcount_order;
        self.v3.header_length = header_length;
        if self.v3.header_length as u64 > cur.position() {
            // There are additional fields.
            cur.set_position(self.v3.header_length as u64);
        }
        let actual_length = cur.position();
        assert(self@ == spec_with_v3_fields(old(self)@, old(cur).contents()));
        match self.read_extensions(cur) {
            Ok(()) => {},
            Err(e) => return Err(e),
        }

        // Validation.
        if self.v3.incompatible.enabled(INCOMPATIBLE_CORRUPT) {
            return Err(Error::UnsupportedFeature(String::from_str("corrupt bit")));
        }
        match self.v3.incompatible.ensure_known(&self.v3.feature_name_table) {
            Ok(()) => {},
            Err(e) => return Err(e),
        }
        if self.v3.refcount_order > 6 {
            let mut msg = String::from_str("bad refcount_order ");
            push_decimal(&mut msg, self.v3.refcount_order as u64);
            return Err(Error::FileFormat(msg));
        }
        if self.v3.header_length as u64 != actual_length {
            let mut msg = String::from_str("header is ");
            push_decimal(&mut msg, actual_length);
            msg.append(" bytes, file claims ");
            push_decimal(&mut msg, self.v3.header_length as u64);
            return Err(Error::FileFormat(msg));
        }
        if cur.position() > self.cluster_size() {
            return Err(
                Error::FileFormat(String::from_str("complete header too big for first cluster")),
            );
        }
        Ok(())
    }

    /// Reads the header from the start of `io` into `self`, which keeps
    /// what was read before a failure.
    pub fn read<I: Pread>(&mut self, io: &Io<I>) -> (r: Result<(), Error>)
        ensures
            spec_read_outcome(
                io.io.contents(),
                io.io.reliable(),
                old(self)@,
                final(self)@,
                spec_failure(r),
            ),
            r is Ok ==> final(self)@.valid(),
    {
        // The headers are best read sequentially, rather than positioned.
        let mut cur = Cursor::new(io);
        match self.read_common(&mut cur) {
            Ok(()) => {},
            Err(e) => return Err(e),
        }
        let r = self.read_v3(&mut cur);
        proof {
            if r is Ok {
                lemma_accepted_header(io.io.contents(), old(self)@);
            }
        }
        r
    }
}

} // verus!
