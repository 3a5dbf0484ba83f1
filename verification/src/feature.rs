//! Sets of feature bits, as the header holds them: one 64-bit mask of each
//! kind, with names for the bits that this library knows.

use crate::error::Error;
use crate::extension::FeatureNameTable;
use vstd::prelude::*;
use vstd::string::StringExecFns;

verus! {

/// Which of the header's three feature masks a bit belongs to.
#[derive(Debug, Clone, Copy, PartialEq, Eq, Structural)]
pub enum FeatureKind {
    Incompatible,
    Compatible,
    Autoclear,
}

/// The number of feature kinds.
pub const FEATURE_KIND_COUNT: usize = 3;

impl FeatureKind {
    /// The number that stands for the kind in a feature name table.
    pub open spec fn spec_code(self) -> u8 {
        match self {
            FeatureKind::Incompatible => 0,
            FeatureKind::Compatible => 1,
            FeatureKind::Autoclear => 2,
        }
    }

    /// The kind's name.
    pub open spec fn spec_name(self) -> Seq<char> {
        match self {
            FeatureKind::Incompatible => "Incompatible"@,
            FeatureKind::Compatible => "Compatible"@,
            FeatureKind::Autoclear => "Autoclear"@,
        }
    }

    /// The number that stands for the kind in a feature name table.
    pub fn code(self) -> (r: u8)
        ensures
            r == self.spec_code(),
    {
        match self {
            FeatureKind::Incompatible => 0,
            FeatureKind::Compatible => 1,
            FeatureKind::Autoclear => 2,
        }
    }

    /// The kind's name.
    pub fn name(self) -> (r: &'static str)
        ensures
            r@ == self.spec_name(),
    {
        match self {
            FeatureKind::Incompatible => "Incompatible",
            FeatureKind::Compatible => "Compatible",
            FeatureKind::Autoclear => "Autoclear",
        }
    }
}

/// Whether bit number `pos` of `bits` is set.
pub open spec fn spec_bit(bits: u64, pos: nat) -> bool {
    pos < 64 && (bits >> (pos as u64)) & 1 == 1
}

/// The mask of the bits at positions `known` and above.
pub open spec fn spec_unknown_mask(known: nat) -> u64 {
    if known >= 64 {
        0
    } else {
        !(((1u64 << (known as u64)) - 1) as u64)
    }
}

/// The mask of the bits at positions `known` and above holds exactly those
/// positions.
pub proof fn lemma_unknown_mask(known: nat, pos: nat)
    requires
        pos < 64,
    ensures
        spec_bit(spec_unknown_mask(known), pos) <==> pos >= known,
{
    if known < 64 {
        let k = known as u64;
        let p = pos as u64;
        assert(((!(((1u64 << k) - 1) as u64)) >> p) & 1 == 1 <==> p >= k) by (bit_vector)
            requires
                k < 64,
                p < 64,
        ;
    } else {
        let p = pos as u64;
        assert((0u64 >> p) & 1 == 0) by (bit_vector);
    }
}

/// The names of the set bits of `bits` below position `upto`, from the
/// least significant up: the built-in name of a bit that has one, else the
/// name that `table` gives it.
pub open spec fn spec_descs(
    bits: u64,
    kind: FeatureKind,
    names: Seq<Seq<char>>,
    table: Seq<crate::extension::FeatureNameView>,
    upto: nat,
) -> Seq<Seq<char>>
    decreases upto,
{
    if upto == 0 {
        Seq::empty()
    } else {
        let pos = (upto - 1) as nat;
        let before = spec_descs(bits, kind, names, table, pos);
        if spec_bit(bits, pos) {
            before.push(
                if pos < names.len() {
                    names[pos as int]
                } else {
                    crate::extension::spec_feature_name(table, kind, pos as u8)
                },
            )
        } else {
            before
        }
    }
}

/// The items of `parts` in order, with ` | ` between neighbours.
pub open spec fn spec_join(parts: Seq<Seq<char>>) -> Seq<char>
    decreases parts.len(),
{
    if parts.len() == 0 {
        Seq::empty()
    } else if parts.len() == 1 {
        parts[0]
    } else {
        spec_join(parts.drop_last()) + " | "@ + parts.last()
    }
}

/// The text of a feature set: the names of its set bits, joined.
pub open spec fn spec_render(
    bits: u64,
    kind: FeatureKind,
    names: Seq<Seq<char>>,
    table: Seq<crate::extension::FeatureNameView>,
) -> Seq<char> {
    spec_join(spec_descs(bits, kind, names, table, 64))
}

/// A set of feature bits of one kind. Bit number `i` carries the name
/// `names[i]` where there is one; the bits above the names are unknown to
/// this library.
pub struct Feature {
    pub bits: u64,
    pub kind: FeatureKind,
    pub names: &'static [&'static str],
}

/// A feature set as plain values.
pub ghost struct FeatureSet {
    pub bits: u64,
    pub kind: FeatureKind,
    pub names: Seq<Seq<char>>,
}

impl View for Feature {
    type V = FeatureSet;

    open spec fn view(&self) -> FeatureSet {
        FeatureSet { bits: self.bits, kind: self.kind, names: self.spec_names() }
    }
}

impl FeatureSet {
    /// The bits that have no built-in name.
    pub open spec fn unknown_bits(self) -> u64 {
        self.bits & spec_unknown_mask(self.names.len())
    }
}

impl Feature {
    /// The built-in names, as texts.
    pub open spec fn spec_names(self) -> Seq<Seq<char>> {
        Seq::new(self.names@.len(), |i: int| self.names@[i]@)
    }

    /// The bits that have no built-in name.
    pub open spec fn spec_unknown_bits(self) -> u64 {
        self.bits & spec_unknown_mask(self.names@.len())
    }

    /// An empty feature set of the given kind, whose low bits are called
    /// `names`.
    pub fn new(kind: FeatureKind, names: &'static [&'static str]) -> (r: Self)
        ensures
            r.bits == 0,
            r.kind == kind,
            r.names == names,
    {
        Feature { bits: 0, kind, names }
    }

    /// Replaces the whole mask.
    pub fn set(&mut self, bits: u64)
        ensures
            final(self).bits == bits,
            final(self).kind == old(self).kind,
            final(self).names == old(self).names,
    {
        self.bits = bits
    }

    /// Sets the bits of the mask `bit`.
    pub fn enable(&mut self, bit: u64)
        ensures
            final(self).bits == old(self).bits | bit,
            final(self).kind == old(self).kind,
            final(self).names == old(self).names,
    {
        self.bits = self.bits | bit
    }

    /// Clears the bits of the mask `bit`.
    pub fn disable(&mut self, bit: u64)
        ensures
            final(self).bits == old(self).bits & !bit,
            final(self).kind == old(self).kind,
            final(self).names == old(self).names,
    {
        self.bits = self.bits & !bit
    }

    /// Whether any bit of the mask `bit` is set.
    pub fn enabled(&self, bit: u64) -> (r: bool)
        ensures
            r == (self.bits & bit != 0),
    {
        (self.bits & bit) != 0
    }

    /// The whole mask.
    pub fn bits(&self) -> (r: u64)
        ensures
            r == self.bits,
    {
        self.bits
    }

    /// The same set without the bits that have a built-in name.
    pub fn unknown(&self) -> (r: Self)
        ensures
            r.bits == self.spec_unknown_bits(),
            r.kind == self.kind,
            r.names == self.names,
    {
        let known = self.names.len();
        let mask: u64 = if known >= 64 {
            0
        } else {
            assert((1u64 << (known as u64)) >= 1) by (bit_vector)
                requires
                    known < 64,
            ;
            !((1u64 << known) - 1)
        };
        Feature { kind: self.kind, names: self.names, bits: self.bits & mask }
    }

    /// Succeeds where every set bit has a built-in name; else reports the
    /// others by name.
    pub fn ensure_known(&self, table: &FeatureNameTable) -> (r: Result<(), Error>)
        ensures
            r is Ok <==> self.spec_unknown_bits() == 0,
            r matches Err(e) ==> e@ == crate::error::ErrorView::UnsupportedFeature(
                spec_render(self.spec_unknown_bits(), self.kind, self.spec_names(), table@),
            ),
    {
        let unknown = self.unknown();
        if unknown.bits() == 0 {
            Ok(())
        } else {
            Err(Error::UnsupportedFeature(unknown.to_string(table)))
        }
    }

    /// The names of the set bits, from the least significant up, joined by
    /// ` | `.
    pub fn to_string(&self, table: &FeatureNameTable) -> (r: String)
        ensures
            r@ == spec_render(self.bits, self.kind, self.spec_names(), table@),
    {
        let known = self.names.len();
        let mut out = String::new();
        let mut count: usize = 0;
        let mut pos: u8 = 0;
        while pos < 64
            invariant
                pos <= 64,
                known == self.names@.len(),
                count == spec_descs(
                    self.bits,
                    self.kind,
                    self.spec_names(),
                    table@,
                    pos as nat,
                ).len(),
                count <= pos,
                out@ == spec_join(
                    spec_descs(self.bits, self.kind, self.spec_names(), table@, pos as nat),
                ),
            decreases 64 - pos,
        {
            let ghost before = spec_descs(
                self.bits,
                self.kind,
                self.spec_names(),
                table@,
                pos as nat,
            );
            if (self.bits >> pos) & 1 == 1 {
                if count > 0 {
                    out.append(" | ");
                }
                if (pos as usize) < known {
                    out.append(self.names[pos as usize]);
                } else {
                    let name = table.name(self.kind, pos);
                    out.append(name.as_str());
                }
                count = count + 1;
                proof {
                    let after = spec_descs(
                        self.bits,
                        self.kind,
                        self.spec_names(),
                        table@,
                        (pos + 1) as nat,
                    );
                    assert(after.drop_last() =~= before);
                    assert(out@ =~= spec_join(after));
                }
            }
            pos = pos + 1;
        }
        out
    }
}

} // verus!
