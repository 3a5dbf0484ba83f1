//! Header extensions: the feature name table, and the extensions that this
//! library keeps without reading them.

use crate::error::Error;
use crate::error::unexpected_eof;
use crate::feature::FeatureKind;
use crate::feature::FEATURE_KIND_COUNT;
use crate::text::ascii_string;
use crate::text::push_decimal;
use vstd::prelude::*;
use vstd::string::StringExecFns;

verus! {

/// The code that ends the list of extensions.
pub const EXT_CODE_NONE: u32 = 0;

/// The code of the feature name table.
pub const EXT_CODE_FEATURE_NAME_TABLE: u32 = 0x6803f857;

/// The length in bytes of one record of the feature name table.
pub const FEATURE_NAME_RECORD: usize = 48;

/// A header extension: it has a code, and reads itself from the bytes of
/// its payload.
pub trait Extension {
    /// The code under which the extension stands in the header.
    fn extension_code(&self) -> u32;

    /// Reads the extension from its payload and returns how many bytes it
    /// has used.
    fn read(&mut self, bytes: &[u8]) -> (r: Result<usize, Error>)
        ensures
            r matches Ok(n) ==> n <= bytes@.len(),
    ;
}

/// An extension that this library does not know: its code and its payload.
pub struct UnknownExtension {
    pub code: u32,
    pub data: Vec<u8>,
}

/// An unknown extension as plain values.
pub ghost struct UnknownExtensionView {
    pub code: u32,
    pub data: Seq<u8>,
}

impl View for UnknownExtension {
    type V = UnknownExtensionView;

    open spec fn view(&self) -> UnknownExtensionView {
        UnknownExtensionView { code: self.code, data: self.data@ }
    }
}

impl UnknownExtension {
    /// An extension with the given code and no payload yet.
    pub fn new(code: u32) -> (r: Self)
        ensures
            r.code == code,
            r.data@ == Seq::<u8>::empty(),
    {
        UnknownExtension { code, data: Vec::new() }
    }
}

impl Extension for UnknownExtension {
    fn extension_code(&self) -> (r: u32)
        ensures
            r == self.code,
    {
        self.code
    }

    /// Keeps the whole payload.
    fn read(&mut self, bytes: &[u8]) -> (r: Result<usize, Error>)
        ensures
            r == Ok::<usize, Error>(bytes@.len() as usize),
            final(self).code == old(self).code,
            final(self).data@ == old(self).data@ + bytes@,
    {
        self.data.extend_from_slice(bytes);
        Ok(bytes.len())
    }
}

/// The name that an image gives to one feature bit.
#[derive(Debug)]
pub struct FeatureName {
    pub kind: u8,
    pub bit: u8,
    pub name: String,
}

/// A feature name as plain values.
pub ghost struct FeatureNameView {
    pub kind: u8,
    pub bit: u8,
    pub name: Seq<char>,
}

impl View for FeatureName {
    type V = FeatureNameView;

    open spec fn view(&self) -> FeatureNameView {
        FeatureNameView { kind: self.kind, bit: self.bit, name: self.name@ }
    }
}

/// The names that an image gives to its feature bits, in the order of the
/// file.
#[derive(Debug)]
pub struct FeatureNameTable(pub Vec<FeatureName>);

impl Default for FeatureNameTable {
    fn default() -> (r: Self)
        ensures
            r@ == Seq::<FeatureNameView>::empty(),
    {
        FeatureNameTable::new()
    }
}

impl View for FeatureNameTable {
    type V = Seq<FeatureNameView>;

    open spec fn view(&self) -> Seq<FeatureNameView> {
        self.0@.map_values(|n: FeatureName| n@)
    }
}

/// The name under which `table` first lists the bit, from entry `from` on,
/// if it lists it.
pub open spec fn spec_lookup(table: Seq<FeatureNameView>, kind: u8, bit: u8, from: int) -> Option<
    Seq<char>,
>
    decreases table.len() - from,
{
    if from < 0 || from >= table.len() {
        None
    } else if table[from].kind == kind && table[from].bit == bit {
        Some(table[from].name)
    } else {
        spec_lookup(table, kind, bit, from + 1)
    }
}

/// The name of a feature bit: the first that `table` lists for it, else
/// `bit N of KIND`.
pub open spec fn spec_feature_name(table: Seq<FeatureNameView>, kind: FeatureKind, bit: u8) -> Seq<
    char,
> {
    match spec_lookup(table, kind.spec_code(), bit, 0) {
        Some(name) => name,
        None => "bit "@ + crate::text::spec_decimal(bit as nat) + " of "@ + kind.spec_name(),
    }
}

/// The length of the name in the bytes `raw`: the offset of the first zero
/// byte at or after `from`, or the length of `raw` where there is none.
pub open spec fn spec_name_len(raw: Seq<u8>, from: int) -> int
    decreases raw.len() - from,
{
    if from < 0 || from >= raw.len() || raw[from] == 0 {
        from
    } else {
        spec_name_len(raw, from + 1)
    }
}

/// What reading the records of a feature name table from `bytes` at offset
/// `pos` on gives, with `acc` read before: the names read, and the failure
/// that ended the reading, if one did. A record is 48 bytes: kind, bit, and
/// a name that ends at its first zero byte.
pub open spec fn spec_read_names(bytes: Seq<u8>, pos: int, acc: Seq<FeatureNameView>) -> (
    Seq<FeatureNameView>,
    Option<crate::error::ErrorView>,
)
    decreases bytes.len() - pos,
{
    if pos < 0 || pos >= bytes.len() {
        (acc, None)
    } else if bytes[pos] >= 3 {
        (
            acc,
            Some(
                crate::error::ErrorView::FileFormat(
                    "unknown feature type in feature name table"@,
                ),
            ),
        )
    } else if pos + 1 >= bytes.len() {
        (acc, Some(crate::error::ErrorView::Io))
    } else if bytes[pos + 1] > 63 {
        (
            acc,
            Some(
                crate::error::ErrorView::FileFormat("bit number too high in feature name table"@),
            ),
        )
    } else if pos + 48 > bytes.len() {
        (acc, Some(crate::error::ErrorView::Io))
    } else {
        let raw = bytes.subrange(pos + 2, pos + 48);
        let name = raw.subrange(0, spec_name_len(raw, 0));
        if !crate::text::spec_is_ascii(name) {
            (
                acc,
                Some(
                    crate::error::ErrorView::FileFormat(
                        "unsafe characters in feature name table"@,
                    ),
                ),
            )
        } else {
            spec_read_names(
                bytes,
                pos + 48,
                acc.push(
                    FeatureNameView {
                        kind: bytes[pos],
                        bit: bytes[pos + 1],
                        name: crate::text::spec_ascii(name),
                    },
                ),
            )
        }
    }
}

/// The name ends within `raw`, at its first zero byte or at its end.
pub proof fn lemma_name_len(raw: Seq<u8>, from: int)
    requires
        0 <= from <= raw.len(),
    ensures
        from <= spec_name_len(raw, from) <= raw.len(),
        forall|i: int| from <= i < spec_name_len(raw, from) ==> raw[i] != 0,
        spec_name_len(raw, from) < raw.len() ==> raw[spec_name_len(raw, from)] == 0,
    decreases raw.len() - from,
{
    if from < raw.len() && raw[from] != 0 {
        lemma_name_len(raw, from + 1);
    }
}

impl FeatureNameTable {
    /// A table without names.
    pub fn new() -> (r: Self)
        ensures
            r@ == Seq::<FeatureNameView>::empty(),
    {
        let r = FeatureNameTable(Vec::new());
        assert(r@ =~= Seq::<FeatureNameView>::empty());
        r
    }

    /// The name of bit number `bit` of the given kind: the first that the
    /// table lists for it, else `bit N of KIND`.
    pub fn name(&self, kind: FeatureKind, bit: u8) -> (r: String)
        ensures
            r@ == spec_feature_name(self@, kind, bit),
    {
        let code = kind.code();
        let mut i: usize = 0;
        while i < self.0.len()
            invariant
                i <= self.0@.len(),
                code == kind.spec_code(),
                spec_lookup(self@, code, bit, 0) == spec_lookup(self@, code, bit, i as int),
            decreases self.0@.len() - i,
        {
            let n = &self.0[i];
            assert(self@[i as int] == n@);
            if n.kind == code && n.bit == bit {
                return n.name.clone();
            }
            i = i + 1;
        }
        let mut s = String::from_str("bit ");
        push_decimal(&mut s, bit as u64);
        s.append(" of ");
        s.append(kind.name());
        s
    }
}

impl Extension for FeatureNameTable {
    fn extension_code(&self) -> (r: u32)
        ensures
            r == EXT_CODE_FEATURE_NAME_TABLE,
    {
        EXT_CODE_FEATURE_NAME_TABLE
    }

    /// Reads records until the payload ends, and adds their names to the
    /// table. The names that were read before a failure stay.
    fn read(&mut self, bytes: &[u8]) -> (r: Result<usize, Error>)
        ensures
            final(self)@ == spec_read_names(bytes@, 0, old(self)@).0,
            match r {
                Ok(n) => n == bytes@.len() && spec_read_names(bytes@, 0, old(self)@).1 is None,
                Err(e) => spec_read_names(bytes@, 0, old(self)@).1 == Some(e@),
            },
    {
        let len = bytes.len();
        let mut pos: usize = 0;
        while pos < len
            invariant
                len == bytes@.len(),
                pos <= len,
                spec_read_names(bytes@, 0, old(self)@) == spec_read_names(
                    bytes@,
                    pos as int,
                    self@,
                ),
            decreases len - pos,
        {
            let kind = bytes[pos];
            if kind >= FEATURE_KIND_COUNT as u8 {
                return Err(
                    Error::FileFormat(
                        String::from_str("unknown feature type in feature name table"),
                    ),
                );
            }
            if len - pos < 2 {
                return Err(Error::Io(unexpected_eof()));
            }
            let bit = bytes[pos + 1];
            if bit > 63 {
                return Err(
                    Error::FileFormat(
                        String::from_str("bit number too high in feature name table"),
                    ),
                );
            }
            if len - pos < FEATURE_NAME_RECORD {
                return Err(Error::Io(unexpected_eof()));
            }
            // The name ends at its first zero byte.
            let ghost raw = bytes@.subrange(pos + 2, pos + 48);
            let mut chars: Vec<u8> = Vec::new();
            let mut ascii = true;
            let mut i: usize = pos + 2;
            proof {
                lemma_name_len(raw, 0);
            }
            while i < pos + FEATURE_NAME_RECORD && bytes[i] != 0
                invariant
                    len == bytes@.len(),
                    pos + 48 <= len,
                    pos + 2 <= i <= pos + 48,
                    raw == bytes@.subrange(pos + 2, pos + 48),
                    spec_name_len(raw, 0) == spec_name_len(raw, i - (pos + 2)),
                    chars@ == raw.subrange(0, i - (pos + 2)),
                    ascii == crate::text::spec_is_ascii(chars@),
                decreases pos + 48 - i,
            {
                let c = bytes[i];
                assert(raw[i - (pos + 2)] == c);
                chars.push(c);
                if c >= 0x80 {
                    ascii = false;
                }
                i = i + 1;
                assert(chars@ =~= raw.subrange(0, i - (pos + 2)));
                assert(chars@.last() == c);
            }
            assert(chars@ == raw.subrange(0, spec_name_len(raw, 0)));
            if !ascii {
                return Err(
                    Error::FileFormat(String::from_str("unsafe characters in feature name table")),
                );
            }
            let ghost name_bytes = chars@;
            let name = match ascii_string(chars) {
                Some(name) => name,
                None => {
                    return Err(Error::Internal(String::from_str("feature name is not a string")));
                },
            };
            let ghost before = self@;
            self.0.push(FeatureName { kind, bit, name });
            assert(self@ =~= before.push(
                FeatureNameView { kind, bit, name: crate::text::spec_ascii(name_bytes) },
            ));
            pos = pos + FEATURE_NAME_RECORD;
        }
        Ok(len)
    }
}

} // verus!
