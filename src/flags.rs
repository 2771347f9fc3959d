//! The two flag vocabularies of record headers: one for content records, one for
//! the file header record.
use vstd::prelude::*;

verus! {

/// A named set of bits over a 32-bit word. A word decodes only when every bit set in it
/// has a name.
pub trait Flags: Sized {
    /// The bits that the vocabulary names.
    spec fn known_bits() -> u32;

    /// The word that the set stands for.
    spec fn spec_bits(&self) -> u32;

    /// The set holding the bits of `bits`; `None` when one of them has no name.
    fn from_bits(bits: u32) -> (r: Option<Self>)
        ensures
            r is Some <==> bits & !Self::known_bits() == 0,
            r matches Some(f) ==> f.spec_bits() == bits,
    ;

    /// The word that the set stands for.
    fn bits(&self) -> (r: u32)
        ensures
            r == self.spec_bits(),
    ;

    /// True when every bit of `value` is in the set.
    fn test(&self, value: u32) -> (r: bool)
        ensures
            r == (self.spec_bits() & value == value),
    ;
}

/// Flags of a content record.
#[derive(Debug, Clone, Copy, PartialEq, Eq, Structural)]
pub struct RecordFlags {
    pub bits: u32,
}

impl RecordFlags {
    pub const DELETED: u32 = 0x0000_0020;
    pub const CONSTANT: u32 = 0x0000_0040;
    pub const MUST_UPDATE_ANIMS: u32 = 0x0000_0100;
    pub const HIDDEN_FROM_LOCAL_MAP: u32 = 0x0000_0200;
    pub const QUEST_ITEM: u32 = 0x0000_0400;
    pub const INITIALLY_DISABLED: u32 = 0x0000_0800;
    pub const IGNORED: u32 = 0x0000_1000;
    pub const VISIBLE_WHEN_DISTANT: u32 = 0x0000_8000;
    pub const RANDOM_ANIMATION_START: u32 = 0x0001_0000;
    pub const DANGEROUS: u32 = 0x0002_0000;
    pub const COMPRESSED: u32 = 0x0004_0000;
    pub const CANNOT_WAIT: u32 = 0x0008_0000;
    pub const IGNORE_OBJECT_INTERACTION: u32 = 0x0010_0000;
    pub const MARKER: u32 = 0x0080_0000;
    pub const OBSTACLE: u32 = 0x0200_0000;
    pub const NAVMESH_GEN_FILTER: u32 = 0x0400_0000;
    pub const NAVMESH_GEN_BBOX: u32 = 0x0800_0000;
    pub const REFLECTED_BY_WATER: u32 = 0x1000_0000;
    pub const NO_HAVOK_SETTLE: u32 = 0x2000_0000;
    pub const NO_RESPAWN: u32 = 0x4000_0000;
    pub const MULTI_BOUND: u32 = 0x8000_0000;
    /// Every named record flag.
    pub const KNOWN: u32 = 0xfe9f_9f60;

    /// The set with no bit.
    pub fn empty() -> (r: RecordFlags)
        ensures
            r.bits == 0,
    {
        RecordFlags { bits: 0 }
    }
}

impl Flags for RecordFlags {
    open spec fn known_bits() -> u32 {
        RecordFlags::KNOWN
    }

    open spec fn spec_bits(&self) -> u32 {
        self.bits
    }

    fn from_bits(bits: u32) -> (r: Option<RecordFlags>) {
        if bits & !RecordFlags::KNOWN == 0 {
            Some(RecordFlags { bits })
        } else {
            None
        }
    }

    fn bits(&self) -> (r: u32) {
        self.bits
    }

    fn test(&self, value: u32) -> (r: bool) {
        self.bits & value == value
    }
}

/// Flags of the file header record.
#[derive(Debug, Clone, Copy, PartialEq, Eq, Structural)]
pub struct PluginFlags {
    pub bits: u32,
}

impl PluginFlags {
    pub const MASTER: u32 = 0x0001;
    pub const LOCALIZED: u32 = 0x0080;
    pub const LIGHT: u32 = 0x0200;
    /// Every named plugin flag.
    pub const KNOWN: u32 = 0x0281;

    /// The set with no bit.
    pub fn empty() -> (r: PluginFlags)
        ensures
            r.bits == 0,
    {
        PluginFlags { bits: 0 }
    }
}

impl Flags for PluginFlags {
    open spec fn known_bits() -> u32 {
        PluginFlags::KNOWN
    }

    open spec fn spec_bits(&self) -> u32 {
        self.bits
    }

    fn from_bits(bits: u32) -> (r: Option<PluginFlags>) {
        if bits & !PluginFlags::KNOWN == 0 {
            Some(PluginFlags { bits })
        } else {
            None
        }
    }

    fn bits(&self) -> (r: u32) {
        self.bits
    }

    fn test(&self, value: u32) -> (r: bool) {
        self.bits & value == value
    }
}

/// Flag validation over any vocabulary: a word is accepted exactly when it is a subset
/// of the named bits, and then the set gives back that word; masking any word down to the
/// named bits yields a word that is accepted, and accepted words are unchanged by that
/// masking, so validating twice is validating once.
pub proof fn flag_validation<F: Flags>(bits: u32)
    ensures
        bits & !F::known_bits() == 0 <==> bits & F::known_bits() == bits,
        (bits & F::known_bits()) & !F::known_bits() == 0,
        bits & !F::known_bits() == 0 ==> (bits & F::known_bits()) == bits,
{
    let k = F::known_bits();
    assert(bits & !k == 0 <==> bits & k == bits) by (bit_vector);
    assert((bits & k) & !k == 0) by (bit_vector);
}

} // verus!
