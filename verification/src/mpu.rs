//! Memory protection unit: region descriptors and their register encoding.

use vstd::prelude::*;
use vstd::arithmetic::power2::pow2;
use vstd::arithmetic::power2::lemma2_to64;
use crate::field::field_value;
use crate::field::field_at;
use crate::field::extract_field;
use crate::field::insert_field;
use crate::field::lemma_insert_above;
use crate::field::lemma_field_among_others;

verus! {

/// Offset of the B bit in an attribute pattern.
pub const ATTR_B_OFFSET: u32 = 0;

/// Offset of the C bit in an attribute pattern.
pub const ATTR_C_OFFSET: u32 = 1;

/// Offset of the S bit in an attribute pattern.
pub const ATTR_S_OFFSET: u32 = 2;

/// Offset of the TEX bits in an attribute pattern.
pub const ATTR_TEX_OFFSET: u32 = 3;

/// Width of the TEX bits in an attribute pattern.
pub const ATTR_TEX_WIDTH: u32 = 3;

/// Data access permissions for a memory region from unprivileged code.
#[derive(Debug, Copy, Clone, PartialEq, Eq, Structural)]
pub enum MpuAccessPolicy {
    /// Any data access (read or write) will generate a fault.
    NoAccess,
    /// Any write access will generate a fault.
    ReadOnly,
    /// Region unprotected, both reads and writes are allowed.
    ReadWrite,
}

impl MpuAccessPolicy {
    /// The code that stands for the policy in a region's control word.
    pub open spec fn code(self) -> nat {
        match self {
            MpuAccessPolicy::NoAccess => 1,
            MpuAccessPolicy::ReadOnly => 2,
            MpuAccessPolicy::ReadWrite => 3,
        }
    }

    /// The policy that a code stands for. The codes 0 and 1 both deny
    /// access, 3 allows reads and writes, every other code allows reads.
    pub open spec fn of_code(bits: nat) -> Self {
        if bits == 1 || bits == 0 {
            MpuAccessPolicy::NoAccess
        } else if bits == 3 {
            MpuAccessPolicy::ReadWrite
        } else {
            MpuAccessPolicy::ReadOnly
        }
    }

    /// Returns the code that stands for the policy in a region's control
    /// word.
    pub fn bits(self) -> (bits: u8)
        ensures
            bits == self.code(),
    {
        match self {
            MpuAccessPolicy::NoAccess => 0b01,
            MpuAccessPolicy::ReadOnly => 0b10,
            MpuAccessPolicy::ReadWrite => 0b11,
        }
    }

    /// Reads a policy from its code.
    pub fn from_bits(bits: u8) -> (policy: Self)
        ensures
            policy == Self::of_code(bits as nat),
    {
        if bits == 0b01 || bits == 0b00 {
            MpuAccessPolicy::NoAccess
        } else if bits == 0b11 {
            MpuAccessPolicy::ReadWrite
        } else {
            MpuAccessPolicy::ReadOnly
        }
    }
}

/// The caching policy for a "normal" memory region.
#[derive(Debug, Copy, Clone, PartialEq, Eq, Structural)]
pub enum MpuCachePolicy {
    /// Non-cacheable memory region.
    NonCacheable,
    /// Write-through, no write allocate.
    WriteThrough,
    /// Write-back cacheable region.
    WriteBack {
        /// Whether a write miss loads the missed cache row into cache.
        write_allocate: bool,
    },
}

/// An attribute pattern that stands for no memory type.
#[derive(Debug, Copy, Clone, PartialEq, Eq, Structural)]
pub struct InvalidReservedAttribute;

/// Describes memory type, cache policy, and shareability.
#[derive(Debug, Copy, Clone, PartialEq, Eq, Structural)]
pub enum MpuMemoryAttributes {
    /// Shareable, non-cached, strongly-ordered memory region.
    StronglyOrdered,
    /// Non-cached device peripheral region.
    Device {
        /// Whether the region is accessible by more than one bus master (eg. a
        /// DMA engine or a second MCU core).
        shareable: bool,
    },
    /// Normal memory region (ie. "actual" memory, such as Flash or SRAM).
    Normal {
        /// Whether the region is accessible by more than one bus master
        /// (eg. a DMA engine or a second MCU core).
        shareable: bool,
        /// Cache policy of the region.
        cache_policy: MpuCachePolicy,
    },
}

/// An attribute pattern made of its TEX, S, C and B bit groups.
pub open spec fn attribute_pattern(tex: nat, s: nat, c: nat, b: nat) -> nat {
    field_at(tex, ATTR_TEX_OFFSET as nat) + field_at(s, ATTR_S_OFFSET as nat) + field_at(
        c,
        ATTR_C_OFFSET as nat,
    ) + field_at(b, ATTR_B_OFFSET as nat)
}

/// The TEX bits of an attribute pattern.
pub open spec fn pattern_tex(bits: nat) -> nat {
    field_value(bits, ATTR_TEX_OFFSET as nat, ATTR_TEX_WIDTH as nat)
}

/// The S bit of an attribute pattern.
pub open spec fn pattern_s(bits: nat) -> nat {
    field_value(bits, ATTR_S_OFFSET as nat, 1)
}

/// The C bit of an attribute pattern.
pub open spec fn pattern_c(bits: nat) -> nat {
    field_value(bits, ATTR_C_OFFSET as nat, 1)
}

/// The B bit of an attribute pattern.
pub open spec fn pattern_b(bits: nat) -> nat {
    field_value(bits, ATTR_B_OFFSET as nat, 1)
}

/// Whether two attribute patterns agree in their TEX, C and B bits, which
/// select the memory type and cache policy. The S bit is left out.
pub open spec fn same_memory_type(a: nat, b: nat) -> bool {
    &&& pattern_tex(a) == pattern_tex(b)
    &&& pattern_c(a) == pattern_c(b)
    &&& pattern_b(a) == pattern_b(b)
}

fn bit_of(flag: bool) -> (bit: u32)
    ensures
        bit == (if flag { 1nat } else { 0nat }),
{
    if flag {
        1
    } else {
        0
    }
}

impl MpuMemoryAttributes {
    /// The bit pattern that stands for the attributes: TEX in bits 5 to 3,
    /// then S, C and B.
    pub open spec fn pattern(self) -> nat {
        match self {
            MpuMemoryAttributes::StronglyOrdered => attribute_pattern(0b000, 0, 0, 0),
            MpuMemoryAttributes::Device { shareable: false } => attribute_pattern(0b010, 0, 0, 0),
            MpuMemoryAttributes::Device { shareable: true } => attribute_pattern(0b000, 0, 0, 1),
            MpuMemoryAttributes::Normal { shareable, cache_policy } => {
                let s: nat = if shareable { 1 } else { 0 };
                match cache_policy {
                    MpuCachePolicy::NonCacheable => attribute_pattern(0b001, s, 0, 0),
                    MpuCachePolicy::WriteThrough => attribute_pattern(0b000, s, 1, 0),
                    MpuCachePolicy::WriteBack { write_allocate: false } => attribute_pattern(
                        0b000,
                        s,
                        1,
                        1,
                    ),
                    MpuCachePolicy::WriteBack { write_allocate: true } => attribute_pattern(
                        0b001,
                        s,
                        1,
                        1,
                    ),
                }
            },
        }
    }

    /// The attributes that a bit pattern stands for, if any. Only the low
    /// six bits count. The S bit is read for normal memory only.
    pub open spec fn of_pattern(bits: nat) -> Option<Self> {
        let tex = pattern_tex(bits);
        let shareable = pattern_s(bits) == 1;
        let c = pattern_c(bits);
        let b = pattern_b(bits);
        if tex == 0b000 && c == 0 && b == 0 {
            Some(MpuMemoryAttributes::StronglyOrdered)
        } else if tex == 0b000 && c == 0 && b == 1 {
            Some(MpuMemoryAttributes::Device { shareable: true })
        } else if tex == 0b010 && c == 0 && b == 0 {
            Some(MpuMemoryAttributes::Device { shareable: false })
        } else if tex == 0b000 && c == 1 && b == 0 {
            Some(
                MpuMemoryAttributes::Normal {
                    shareable,
                    cache_policy: MpuCachePolicy::WriteThrough,
                },
            )
        } else if tex == 0b000 && c == 1 && b == 1 {
            Some(
                MpuMemoryAttributes::Normal {
                    shareable,
                    cache_policy: MpuCachePolicy::WriteBack { write_allocate: false },
                },
            )
        } else if tex == 0b001 && c == 1 && b == 1 {
            Some(
                MpuMemoryAttributes::Normal {
                    shareable,
                    cache_policy: MpuCachePolicy::WriteBack { write_allocate: true },
                },
            )
        } else if tex == 0b001 && c == 0 && b == 0 {
            Some(
                MpuMemoryAttributes::Normal {
                    shareable,
                    cache_policy: MpuCachePolicy::NonCacheable,
                },
            )
        } else {
            None
        }
    }

    /// Turns `self` into its bit-level representation, consisting of the
    /// TEX, C, B, and S bits.
    pub fn to_bits(self) -> (bits: u32)
        ensures
            bits == self.pattern(),
            bits < 64,
    {
        proof {
            lemma2_to64();
        }
        let (tex, s, c, b): (u32, u32, u32, u32) = match self {
            MpuMemoryAttributes::StronglyOrdered => (0b000, 0, 0, 0),
            MpuMemoryAttributes::Device { shareable: false } => (0b010, 0, 0, 0),
            MpuMemoryAttributes::Device { shareable: true } => (0b000, 0, 0, 1),
            MpuMemoryAttributes::Normal { shareable, cache_policy } => {
                let s: u32 = bit_of(shareable);
                match cache_policy {
                    MpuCachePolicy::NonCacheable => (0b001, s, 0, 0),
                    MpuCachePolicy::WriteThrough => (0b000, s, 1, 0),
                    MpuCachePolicy::WriteBack { write_allocate: false } => (0b000, s, 1, 1),
                    MpuCachePolicy::WriteBack { write_allocate: true } => (0b001, s, 1, 1),
                }
            },
        };
        tex * 8 + s * 4 + c * 2 + b
    }

    /// Reads attributes from their bit pattern. A pattern whose TEX, C and B
    /// bits stand for no memory type is refused.
    pub fn from_bits(bits: u8) -> (attributes: Result<Self, InvalidReservedAttribute>)
        ensures
            attributes == (match Self::of_pattern(bits as nat) {
                Some(found) => Ok::<Self, InvalidReservedAttribute>(found),
                None => Err(InvalidReservedAttribute),
            }),
    {
        let word: u32 = bits as u32;
        let tex: u32 = extract_field(word, ATTR_TEX_OFFSET, ATTR_TEX_WIDTH);
        let s: u32 = extract_field(word, ATTR_S_OFFSET, 1);
        let c: u32 = extract_field(word, ATTR_C_OFFSET, 1);
        let b: u32 = extract_field(word, ATTR_B_OFFSET, 1);
        let shareable: bool = s == 1;

        if tex == 0b000 && c == 0 && b == 0 {
            Ok(MpuMemoryAttributes::StronglyOrdered)
        } else if tex == 0b000 && c == 0 && b == 1 {
            Ok(MpuMemoryAttributes::Device { shareable: true })
        } else if tex == 0b010 && c == 0 && b == 0 {
            Ok(MpuMemoryAttributes::Device { shareable: false })
        } else if tex == 0b000 && c == 1 && b == 0 {
            Ok(MpuMemoryAttributes::Normal { shareable, cache_policy: MpuCachePolicy::WriteThrough })
        } else if tex == 0b000 && c == 1 && b == 1 {
            Ok(
                MpuMemoryAttributes::Normal {
                    shareable,
                    cache_policy: MpuCachePolicy::WriteBack { write_allocate: false },
                },
            )
        } else if tex == 0b001 && c == 1 && b == 1 {
            Ok(
                MpuMemoryAttributes::Normal {
                    shareable,
                    cache_policy: MpuCachePolicy::WriteBack { write_allocate: true },
                },
            )
        } else if tex == 0b001 && c == 0 && b == 0 {
            Ok(MpuMemoryAttributes::Normal { shareable, cache_policy: MpuCachePolicy::NonCacheable })
        } else {
            Err(InvalidReservedAttribute)
        }
    }
}

/// Reading the pattern of any attributes gives the attributes back.
pub proof fn lemma_attributes_round_trip(attributes: MpuMemoryAttributes)
    ensures
        attributes.pattern() < 64,
        MpuMemoryAttributes::of_pattern(attributes.pattern()) == Some(attributes),
{
    lemma2_to64();
}

/// A pattern is refused exactly when no attributes have a pattern with the
/// same TEX, C and B bits.
pub proof fn lemma_reserved_patterns_refused(bits: nat)
    ensures
        MpuMemoryAttributes::of_pattern(bits) is None <==> forall|attributes: MpuMemoryAttributes|
            !same_memory_type(#[trigger] attributes.pattern(), bits),
{
    lemma2_to64();
    if MpuMemoryAttributes::of_pattern(bits) is None {
        assert forall|attributes: MpuMemoryAttributes|
            !same_memory_type(#[trigger] attributes.pattern(), bits) by {
            lemma_attributes_round_trip(attributes);
        }
    } else {
        let found = MpuMemoryAttributes::of_pattern(bits).unwrap();
        assert(same_memory_type(found.pattern(), bits));
    }
}

/// Offset of the region-enable bit in a region's control word.
pub const REGION_ENABLE_OFFSET: u32 = 0;

/// Offset of the size code in a region's control word.
pub const REGION_SIZE_OFFSET: u32 = 1;

/// Width of the size code.
pub const REGION_SIZE_WIDTH: u32 = 5;

/// Offset of the subregion-disable mask in a region's control word.
pub const REGION_SRD_OFFSET: u32 = 8;

/// Width of the subregion-disable mask.
pub const REGION_SRD_WIDTH: u32 = 8;

/// Offset of the attribute pattern in a region's control word.
pub const REGION_ATTR_OFFSET: u32 = 16;

/// Width of the attribute pattern.
pub const REGION_ATTR_WIDTH: u32 = 6;

/// Offset of the access policy in a region's control word.
pub const REGION_AP_OFFSET: u32 = 24;

/// Width of the access policy.
pub const REGION_AP_WIDTH: u32 = 3;

/// Offset of the execute-never bit in a region's control word.
pub const REGION_XN_OFFSET: u32 = 28;

/// Offset of the address in a region's base word; the bits below it are
/// not part of the address.
pub const REGION_ADDR_OFFSET: u32 = 4;

/// Width of the address in a region's base word.
pub const REGION_ADDR_WIDTH: u32 = 28;

/// The smallest size code: a region of 32 bytes.
pub const MIN_REGION_SIZE_BITS: u8 = 4;

/// The largest size code: a region of 4 GiB.
pub const MAX_REGION_SIZE_BITS: u8 = 31;

/// Memory region size value (5 bits).
///
/// Memory regions must have a size that is a power of two, and their base
/// address must be naturally aligned (ie. aligned to their size).
#[derive(Copy, Clone, Debug, PartialEq, Eq, PartialOrd, Ord, Structural)]
pub struct MpuRegionSize(pub u8);

impl MpuRegionSize {
    /// Whether the value is one of the size codes: those of 32 bytes up to
    /// 4 GiB.
    pub open spec fn is_size_code(self) -> bool {
        MIN_REGION_SIZE_BITS <= self.0 <= MAX_REGION_SIZE_BITS
    }

    /// The size in bytes that the code stands for: `2^(bits + 1)`.
    pub open spec fn bytes(self) -> nat {
        pow2((self.0 + 1) as nat)
    }

    /// Creates a `MpuRegionSize` from a raw 5-bit value.
    ///
    /// The `bits` encode a region size of `2^(bits + 1)`. For example, a 1 KiB
    /// region would use `0b01001` (9): `2^(9+1) = 2^10 = 1024`.
    pub fn from_raw_bits(bits: u8) -> (size: Self)
        ensures
            size.0 == bits,
    {
        MpuRegionSize(bits)
    }

    /// Returns the raw 5-bit value encoding the region size.
    pub fn bits(self) -> (bits: u8)
        ensures
            bits == self.0,
    {
        self.0
    }
}

/// Subregion Disable (SRD) bits for the 8 subregions in a region.
///
/// Note that some cores do not support subregions for small region sizes.
#[derive(Debug, Copy, Clone, PartialEq, Eq, Structural)]
pub struct MpuSubregions(pub u8);

impl MpuSubregions {
    /// Creates a `MpuSubregions` mask from raw Subregion Disable (SRD) bits.
    ///
    /// The least significant bit disables the lowest 1/8th of the region, and
    /// so on.
    pub fn from_disable_bits(bits: u8) -> (subregions: Self)
        ensures
            subregions.0 == bits,
    {
        MpuSubregions(bits)
    }

    /// Returns the raw 8-bit Subregion Disable Bits value.
    pub fn bits(self) -> (bits: u8)
        ensures
            bits == self.0,
    {
        self.0
    }
}

/// By default, all subregions are enabled.
impl Default for MpuSubregions {
    fn default() -> (subregions: Self)
        ensures
            subregions.0 == 0,
    {
        MpuSubregions(0)
    }
}

/// Memory region description.
#[derive(Debug, Copy, Clone, PartialEq, Eq, Structural)]
pub struct ProtectedMemoryRegion {
    pub base_address: u32,
    pub size: MpuRegionSize,
    pub subregions: MpuSubregions,
    pub executable: bool,
    pub permissions: MpuAccessPolicy,
    pub attributes: MpuMemoryAttributes,
}

/// The region that was read is not enabled.
#[derive(Debug, Copy, Clone, PartialEq, Eq, Structural)]
pub struct MemoryRegionDisabled;

/// Every region of the protection unit is in use.
#[derive(Debug, Copy, Clone, PartialEq, Eq, Structural)]
pub struct MemoryRegionsFull;

/// Why a pair of region words stands for no region description.
#[derive(Debug, Copy, Clone, PartialEq, Eq, Structural)]
pub enum RegionDecodeError {
    /// The enable bit of the control word is clear.
    Disabled(MemoryRegionDisabled),
    /// The attribute pattern of the control word stands for no memory type.
    Reserved(InvalidReservedAttribute),
}

/// Whether the enable bit of a region's control word is set.
pub open spec fn region_enabled(control: nat) -> bool {
    field_value(control, REGION_ENABLE_OFFSET as nat, 1) == 1
}

/// A base word without the bits that are not part of the address.
pub open spec fn address_of(base: nat) -> nat {
    field_at(
        field_value(base, REGION_ADDR_OFFSET as nat, REGION_ADDR_WIDTH as nat),
        REGION_ADDR_OFFSET as nat,
    )
}

impl ProtectedMemoryRegion {
    /// Whether the description is one of a region: the size is one of the
    /// size codes and the base address is a multiple of the size.
    pub open spec fn wf(self) -> bool {
        &&& self.size.is_size_code()
        &&& self.base_address as nat % self.size.bytes() == 0
    }

    /// The control word of the region: the enable bit set, then the size
    /// code (its low five bits), the subregion-disable mask, the attribute
    /// pattern, the access policy and the execute-never bit, each at its
    /// offset.
    pub open spec fn control_word(self) -> nat {
        field_at(1, REGION_ENABLE_OFFSET as nat) + field_at(
            field_value(self.size.0 as nat, 0, REGION_SIZE_WIDTH as nat),
            REGION_SIZE_OFFSET as nat,
        ) + field_at(self.subregions.0 as nat, REGION_SRD_OFFSET as nat) + field_at(
            self.attributes.pattern(),
            REGION_ATTR_OFFSET as nat,
        ) + field_at(self.permissions.code(), REGION_AP_OFFSET as nat) + field_at(
            if self.executable { 0nat } else { 1nat },
            REGION_XN_OFFSET as nat,
        )
    }

    /// The base word of the region: the base address without its low four
    /// bits.
    pub open spec fn base_word(self) -> nat {
        address_of(self.base_address as nat)
    }

    /// What a pair of region words stands for: the region description, or
    /// the reason why there is none.
    pub open spec fn of_words(control: nat, base: nat) -> Result<Self, RegionDecodeError> {
        if !region_enabled(control) {
            Err(RegionDecodeError::Disabled(MemoryRegionDisabled))
        } else {
            match MpuMemoryAttributes::of_pattern(
                field_value(control, REGION_ATTR_OFFSET as nat, REGION_ATTR_WIDTH as nat),
            ) {
                None => Err(RegionDecodeError::Reserved(InvalidReservedAttribute)),
                Some(attributes) => Ok(
                    ProtectedMemoryRegion {
                        base_address: address_of(base) as u32,
                        size: MpuRegionSize(
                            field_value(
                                control,
                                REGION_SIZE_OFFSET as nat,
                                REGION_SIZE_WIDTH as nat,
                            ) as u8,
                        ),
                        subregions: MpuSubregions(
                            field_value(
                                control,
                                REGION_SRD_OFFSET as nat,
                                REGION_SRD_WIDTH as nat,
                            ) as u8,
                        ),
                        executable: field_value(control, REGION_XN_OFFSET as nat, 1) == 0,
                        permissions: MpuAccessPolicy::of_code(
                            field_value(control, REGION_AP_OFFSET as nat, REGION_AP_WIDTH as nat),
                        ),
                        attributes,
                    },
                ),
            }
        }
    }

    /// The two words that describe the region to the protection unit: the
    /// control word and the base word.
    pub fn encode(&self) -> (words: (u32, u32))
        ensures
            words.0 == self.control_word(),
            words.1 == self.base_word(),
    {
        proof {
            lemma2_to64();
        }
        let size: u32 = extract_field(self.size.bits() as u32, 0, REGION_SIZE_WIDTH);
        let srd: u32 = self.subregions.bits() as u32;
        let scb: u32 = self.attributes.to_bits();
        let ap: u32 = self.permissions.bits() as u32;
        let xn: u32 = bit_of(!self.executable);

        let enabled: u32 = insert_field(0, REGION_ENABLE_OFFSET, 1, 1);
        proof {
            lemma_insert_above(0, REGION_ENABLE_OFFSET as nat, 1, 1);
        }
        let sized: u32 = insert_field(enabled, REGION_SIZE_OFFSET, REGION_SIZE_WIDTH, size);
        proof {
            lemma_insert_above(
                enabled as nat,
                REGION_SIZE_OFFSET as nat,
                REGION_SIZE_WIDTH as nat,
                size as nat,
            );
        }
        let masked: u32 = insert_field(sized, REGION_SRD_OFFSET, REGION_SRD_WIDTH, srd);
        proof {
            lemma_insert_above(
                sized as nat,
                REGION_SRD_OFFSET as nat,
                REGION_SRD_WIDTH as nat,
                srd as nat,
            );
        }
        let typed: u32 = insert_field(masked, REGION_ATTR_OFFSET, REGION_ATTR_WIDTH, scb);
        proof {
            lemma_insert_above(
                masked as nat,
                REGION_ATTR_OFFSET as nat,
                REGION_ATTR_WIDTH as nat,
                scb as nat,
            );
        }
        let guarded: u32 = insert_field(typed, REGION_AP_OFFSET, REGION_AP_WIDTH, ap);
        proof {
            lemma_insert_above(
                typed as nat,
                REGION_AP_OFFSET as nat,
                REGION_AP_WIDTH as nat,
                ap as nat,
            );
        }
        let rasr: u32 = insert_field(guarded, REGION_XN_OFFSET, 1, xn);
        proof {
            lemma_insert_above(guarded as nat, REGION_XN_OFFSET as nat, 1, xn as nat);
        }

        // the low four bits are not part of the address in the base word
        let address: u32 = extract_field(self.base_address, REGION_ADDR_OFFSET, REGION_ADDR_WIDTH);
        let rbar: u32 = insert_field(0, REGION_ADDR_OFFSET, REGION_ADDR_WIDTH, address);
        proof {
            lemma_insert_above(0, REGION_ADDR_OFFSET as nat, REGION_ADDR_WIDTH as nat, address as nat);
        }
        (rasr, rbar)
    }

    /// Reads a region description from the two words of the protection
    /// unit. A control word with the enable bit clear gives
    /// `MemoryRegionDisabled`; one whose attribute pattern stands for no
    /// memory type gives `InvalidReservedAttribute`.
    pub fn decode(control: u32, base: u32) -> (region: Result<Self, RegionDecodeError>)
        ensures
            region == Self::of_words(control as nat, base as nat),
    {
        proof {
            lemma2_to64();
        }
        // is memory region protection enabled?
        if extract_field(control, REGION_ENABLE_OFFSET, 1) == 0 {
            return Err(RegionDecodeError::Disabled(MemoryRegionDisabled));
        }
        // attributes in bits 21 to 16
        let pattern: u32 = extract_field(control, REGION_ATTR_OFFSET, REGION_ATTR_WIDTH);
        let attributes = match MpuMemoryAttributes::from_bits(pattern as u8) {
            Ok(attributes) => attributes,
            Err(reserved) => {
                return Err(RegionDecodeError::Reserved(reserved));
            },
        };
        // strip lower bits of address register, because they are irrelevant
        let address: u32 = extract_field(base, REGION_ADDR_OFFSET, REGION_ADDR_WIDTH);
        let base_address: u32 = insert_field(0, REGION_ADDR_OFFSET, REGION_ADDR_WIDTH, address);
        proof {
            lemma_insert_above(0, REGION_ADDR_OFFSET as nat, REGION_ADDR_WIDTH as nat, address as nat);
        }
        // size is encoded in bits 5 to 1
        let size: u32 = extract_field(control, REGION_SIZE_OFFSET, REGION_SIZE_WIDTH);
        // subregions enable bits in bit 15 to 8
        let srd: u32 = extract_field(control, REGION_SRD_OFFSET, REGION_SRD_WIDTH);
        // permissions settings in bits 26 to 24
        let ap: u32 = extract_field(control, REGION_AP_OFFSET, REGION_AP_WIDTH);
        // execute-never bit is at position 28
        let xn: u32 = extract_field(control, REGION_XN_OFFSET, 1);
        Ok(
            ProtectedMemoryRegion {
                base_address,
                size: MpuRegionSize::from_raw_bits(size as u8),
                subregions: MpuSubregions::from_disable_bits(srd as u8),
                executable: xn == 0,
                permissions: MpuAccessPolicy::from_bits(ap as u8),
                attributes,
            },
        )
    }
}

/// The words of a well-formed region description are read back as that
/// description.
pub proof fn lemma_region_round_trip(region: ProtectedMemoryRegion)
    requires
        region.wf(),
    ensures
        region.control_word() <= u32::MAX,
        region.base_word() == region.base_address,
        ProtectedMemoryRegion::of_words(region.control_word(), region.base_word()) == Ok::<
            ProtectedMemoryRegion,
            RegionDecodeError,
        >(region),
{
    lemma2_to64();
    lemma_attributes_round_trip(region.attributes);
    let size = region.size.0 as nat;
    let srd = region.subregions.0 as nat;
    let pattern = region.attributes.pattern();
    let ap = region.permissions.code();
    let xn = if region.executable { 0nat } else { 1nat };
    let control = region.control_word();

    assert(field_value(size, 0, REGION_SIZE_WIDTH as nat) == size) by {
        lemma_field_among_others(0, size, 0, 0, REGION_SIZE_WIDTH as nat);
    }
    assert(control == 1 + size * 2 + srd * 0x100 + pattern * 0x1_0000 + ap * 0x100_0000 + xn
        * 0x1000_0000);
    assert(region_enabled(control)) by {
        let high = size + srd * 0x80 + pattern * 0x8000 + ap * 0x80_0000 + xn * 0x800_0000;
        lemma_field_among_others(0, 1, high, REGION_ENABLE_OFFSET as nat, 1);
    }
    assert(field_value(control, REGION_SIZE_OFFSET as nat, REGION_SIZE_WIDTH as nat) == size) by {
        let high = srd * 4 + pattern * 0x400 + ap * 0x4_0000 + xn * 0x40_0000;
        lemma_field_among_others(1, size, high, REGION_SIZE_OFFSET as nat, REGION_SIZE_WIDTH as nat);
    }
    assert(field_value(control, REGION_SRD_OFFSET as nat, REGION_SRD_WIDTH as nat) == srd) by {
        let high = pattern + ap * 0x100 + xn * 0x1000;
        lemma_field_among_others(
            1 + size * 2,
            srd,
            high,
            REGION_SRD_OFFSET as nat,
            REGION_SRD_WIDTH as nat,
        );
    }
    assert(field_value(control, REGION_ATTR_OFFSET as nat, REGION_ATTR_WIDTH as nat) == pattern)
        by {
        let high = ap * 4 + xn * 0x40;
        lemma_field_among_others(
            1 + size * 2 + srd * 0x100,
            pattern,
            high,
            REGION_ATTR_OFFSET as nat,
            REGION_ATTR_WIDTH as nat,
        );
    }
    assert(field_value(control, REGION_AP_OFFSET as nat, REGION_AP_WIDTH as nat) == ap) by {
        let high = xn * 2;
        lemma_field_among_others(
            1 + size * 2 + srd * 0x100 + pattern * 0x1_0000,
            ap,
            high,
            REGION_AP_OFFSET as nat,
            REGION_AP_WIDTH as nat,
        );
    }
    assert(field_value(control, REGION_XN_OFFSET as nat, 1) == xn) by {
        lemma_field_among_others(
            1 + size * 2 + srd * 0x100 + pattern * 0x1_0000 + ap * 0x100_0000,
            xn,
            0,
            REGION_XN_OFFSET as nat,
            1,
        );
    }
    assert(address_of(region.base_address as nat) == region.base_address) by {
        lemma_aligned_to_sixteen(region.base_address as nat, (region.size.0 + 1) as nat);
    }
}

/// A multiple of `2^exponent`, for an exponent of at least four, is a
/// multiple of sixteen.
proof fn lemma_aligned_to_sixteen(address: nat, exponent: nat)
    requires
        exponent >= 4,
        address % pow2(exponent) == 0,
    ensures
        address % 16 == 0,
{
    lemma2_to64();
    vstd::arithmetic::power2::lemma_pow2_adds(4, (exponent - 4) as nat);
    vstd::arithmetic::power2::lemma_pow2_pos((exponent - 4) as nat);
    vstd::arithmetic::power2::lemma_pow2_pos(exponent);
    let rest = pow2((exponent - 4) as nat) as int;
    let whole = pow2(exponent) as int;
    vstd::arithmetic::div_mod::lemma_fundamental_div_mod(address as int, whole);
    let q = address as int / whole;
    assert(address == 16 * (rest * q)) by (nonlinear_arith)
        requires
            address == whole * q,
            whole == 16 * rest,
    ;
    vstd::arithmetic::div_mod::lemma_mod_multiples_basic(rest * q, 16);
}

/// Offset of the number of regions in the type word of the protection unit.
pub const TYPE_REGIONS_OFFSET: u32 = 8;

/// Width of the number of regions in the type word.
pub const TYPE_REGIONS_WIDTH: u32 = 8;

/// Offset of the enable bit in the control register of the protection unit.
pub const CTRL_ENABLE_OFFSET: u32 = 0;

/// Width of the switches at the low end of the control register: the
/// enable bit, the bit that keeps the unit on in the fault handlers, and
/// the bit that gives privileged code the default memory map.
pub const CTRL_SWITCHES_WIDTH: u32 = 3;

/// The switches that `enable` sets: the enable bit and the bit that keeps
/// the unit on in the fault handlers.
pub const CTRL_SWITCHES_ON: u32 = 0x3;

/// One step of an update of the protection unit. The steps of an update
/// reach the hardware one by one, in the order of the sequence.
#[derive(Debug, Copy, Clone, PartialEq, Eq, Structural)]
pub enum MpuOp {
    /// A data synchronisation barrier.
    DataSyncBarrier,
    /// An instruction synchronisation barrier.
    InstrSyncBarrier,
    /// A write of the control register.
    WriteControl(u32),
    /// A write of the region number register: the region words that are
    /// read and written afterwards are those of this region.
    SelectRegion(u32),
    /// A write of the base word of the selected region.
    WriteRegionBase(u32),
    /// A write of the control word of the selected region.
    WriteRegionControl(u32),
}

/// The number of regions that a type word announces.
pub open spec fn supported_of(type_word: nat) -> nat {
    field_value(type_word, TYPE_REGIONS_OFFSET as nat, TYPE_REGIONS_WIDTH as nat)
}

/// Whether a control register value has the protection unit enabled.
pub open spec fn unit_enabled(ctrl: nat) -> bool {
    field_value(ctrl, CTRL_ENABLE_OFFSET as nat, 1) == 1
}

/// The control register value that switches the unit on: `ctrl` with its
/// three switches replaced.
pub open spec fn enabled_ctrl(ctrl: nat) -> int {
    crate::field::with_field(
        ctrl,
        CTRL_ENABLE_OFFSET as nat,
        CTRL_SWITCHES_WIDTH as nat,
        CTRL_SWITCHES_ON as nat,
    )
}

/// The steps that switch the protection unit on.
pub open spec fn enable_sequence(ctrl: u32) -> Seq<MpuOp> {
    seq![
        MpuOp::DataSyncBarrier,
        MpuOp::WriteControl(enabled_ctrl(ctrl as nat) as u32),
        MpuOp::DataSyncBarrier,
        MpuOp::InstrSyncBarrier,
    ]
}

/// The steps that switch the protection unit off.
pub open spec fn disable_sequence() -> Seq<MpuOp> {
    seq![
        MpuOp::DataSyncBarrier,
        MpuOp::WriteControl(0),
        MpuOp::DataSyncBarrier,
        MpuOp::InstrSyncBarrier,
    ]
}

/// The three writes that program region `rnr`.
pub open spec fn region_writes(region: ProtectedMemoryRegion, rnr: u8) -> Seq<MpuOp> {
    seq![
        MpuOp::SelectRegion(rnr as u32),
        MpuOp::WriteRegionBase(region.base_word() as u32),
        MpuOp::WriteRegionControl(region.control_word() as u32),
    ]
}

/// The steps that program region `rnr`. A unit that is on is switched off
/// for the writes, and then given its control value back.
pub open spec fn set_region_sequence(ctrl: u32, region: ProtectedMemoryRegion, rnr: u8) -> Seq<
    MpuOp,
> {
    if unit_enabled(ctrl as nat) {
        seq![MpuOp::DataSyncBarrier, MpuOp::WriteControl(0)] + region_writes(region, rnr) + seq![
            MpuOp::WriteControl(ctrl),
            MpuOp::DataSyncBarrier,
            MpuOp::InstrSyncBarrier,
        ]
    } else {
        region_writes(region, rnr)
    }
}

/// How many of the first `n` control words have the enable bit set.
pub open spec fn enabled_among(controls: Seq<u32>, n: nat) -> nat
    decreases n,
{
    if n == 0 {
        0
    } else {
        enabled_among(controls, (n - 1) as nat) + (if region_enabled(controls[n - 1] as nat) {
            1nat
        } else {
            0nat
        })
    }
}

/// Whether `slot` is the first control word with the enable bit clear.
pub open spec fn is_first_free(controls: Seq<u32>, slot: int) -> bool {
    &&& 0 <= slot < controls.len()
    &&& !region_enabled(controls[slot] as nat)
    &&& forall|i: int| 0 <= i < slot ==> region_enabled(#[trigger] controls[i] as nat)
}

/// Whether every control word has the enable bit set.
pub open spec fn all_enabled(controls: Seq<u32>) -> bool {
    forall|i: int| 0 <= i < controls.len() ==> region_enabled(#[trigger] controls[i] as nat)
}

/// Supported region number: the number of regions that the type word of
/// the protection unit announces.
pub fn supported_regions_of(type_word: u32) -> (count: u8)
    ensures
        count == supported_of(type_word as nat),
{
    proof {
        lemma2_to64();
    }
    // support region count is encoded in bits 15 to 8
    extract_field(type_word, TYPE_REGIONS_OFFSET, TYPE_REGIONS_WIDTH) as u8
}

/// Whether a control register value has the protection unit enabled.
pub fn ctrl_is_enabled(ctrl: u32) -> (enabled: bool)
    ensures
        enabled == unit_enabled(ctrl as nat),
{
    proof {
        lemma2_to64();
    }
    extract_field(ctrl, CTRL_ENABLE_OFFSET, 1) != 0
}

/// Whether the enable bit of a region's control word is set.
pub fn region_is_enabled(control: u32) -> (enabled: bool)
    ensures
        enabled == region_enabled(control as nat),
{
    proof {
        lemma2_to64();
    }
    extract_field(control, REGION_ENABLE_OFFSET, 1) != 0
}

/// The steps that switch the protection unit on, given the present value
/// of its control register.
pub fn enable_ops(ctrl: u32) -> (ops: Vec<MpuOp>)
    ensures
        ops@ == enable_sequence(ctrl),
{
    proof {
        lemma2_to64();
    }
    let switched: u32 = insert_field(ctrl, CTRL_ENABLE_OFFSET, CTRL_SWITCHES_WIDTH, CTRL_SWITCHES_ON);
    let mut ops: Vec<MpuOp> = Vec::new();
    ops.push(MpuOp::DataSyncBarrier);
    ops.push(MpuOp::WriteControl(switched));
    ops.push(MpuOp::DataSyncBarrier);
    ops.push(MpuOp::InstrSyncBarrier);
    ops
}

/// The steps that switch the protection unit off.
pub fn disable_ops() -> (ops: Vec<MpuOp>)
    ensures
        ops@ == disable_sequence(),
{
    let mut ops: Vec<MpuOp> = Vec::new();
    ops.push(MpuOp::DataSyncBarrier);
    ops.push(MpuOp::WriteControl(0));
    ops.push(MpuOp::DataSyncBarrier);
    ops.push(MpuOp::InstrSyncBarrier);
    ops
}

/// The steps that program region `rnr` with `region`, given the present
/// value of the control register.
pub fn set_region_ops(ctrl: u32, region: &ProtectedMemoryRegion, rnr: u8) -> (ops: Vec<MpuOp>)
    ensures
        ops@ == set_region_sequence(ctrl, *region, rnr),
{
    let mpu_enabled: bool = ctrl_is_enabled(ctrl);
    let (rasr, rbar): (u32, u32) = region.encode();
    let mut ops: Vec<MpuOp> = Vec::new();
    if mpu_enabled {
        // we need to disable the mpu while updating the region
        ops.push(MpuOp::DataSyncBarrier);
        ops.push(MpuOp::WriteControl(0));
    }
    // set region number
    ops.push(MpuOp::SelectRegion(rnr as u32));
    // set base address
    ops.push(MpuOp::WriteRegionBase(rbar));
    // set region settings
    ops.push(MpuOp::WriteRegionControl(rasr));
    if mpu_enabled {
        ops.push(MpuOp::WriteControl(ctrl));
        ops.push(MpuOp::DataSyncBarrier);
        ops.push(MpuOp::InstrSyncBarrier);
    }
    ops
}

/// The number of active regions among the control words of a protection
/// unit's regions.
pub fn count_enabled(controls: &Vec<u32>) -> (count: u8)
    requires
        controls.len() <= u8::MAX,
    ensures
        count == enabled_among(controls@, controls@.len()),
{
    let mut count: u8 = 0;
    let mut rnr: usize = 0;
    while rnr < controls.len()
        invariant
            rnr <= controls.len() <= u8::MAX,
            count == enabled_among(controls@, rnr as nat),
            count <= rnr,
        decreases controls.len() - rnr,
    {
        // is memory region protection enabled?
        if region_is_enabled(controls[rnr]) {
            count += 1;
        }
        rnr += 1;
    }
    count
}

/// The first region that is not used already, among the control words of
/// a protection unit's regions.
pub fn first_free(controls: &Vec<u32>) -> (slot: Option<u8>)
    requires
        controls.len() <= u8::MAX,
    ensures
        match slot {
            Some(rnr) => is_first_free(controls@, rnr as int),
            None => all_enabled(controls@),
        },
{
    let mut rnr: usize = 0;
    while rnr < controls.len()
        invariant
            rnr <= controls.len() <= u8::MAX,
            forall|i: int| 0 <= i < rnr ==> region_enabled(#[trigger] controls@[i] as nat),
        decreases controls.len() - rnr,
    {
        // is the memory region not used already?
        if !region_is_enabled(controls[rnr]) {
            return Some(rnr as u8);
        }
        rnr += 1;
    }
    None
}

/// The two words that a protection unit holds for one region.
#[derive(Debug, Copy, Clone, PartialEq, Eq, Structural)]
pub struct MpuRegionWords {
    /// The control word: enable bit, size, subregions, attributes, access.
    pub control: u32,
    /// The base word: the region's address.
    pub base: u32,
}

/// What the registers of a protection unit hold.
pub struct MpuState {
    /// The type word, which announces the number of regions.
    pub type_word: u32,
    /// The control register.
    pub ctrl: u32,
    /// The region number register.
    pub region_number: u32,
    /// The words of the regions, by region number.
    pub regions: Seq<MpuRegionWords>,
}

impl MpuState {
    /// Whether the unit has as many regions as its type word announces.
    pub open spec fn wf(self) -> bool {
        self.regions.len() == supported_of(self.type_word as nat)
    }

    /// The control words of the regions, by region number.
    pub open spec fn controls(self) -> Seq<u32> {
        Seq::new(self.regions.len(), |i: int| self.regions[i].control)
    }

    /// The state with region `rnr` selected.
    pub open spec fn select(self, rnr: u32) -> Self {
        MpuState { region_number: rnr, ..self }
    }

    /// The state with `words` in region `rnr`, and that region selected.
    pub open spec fn program(self, rnr: u32, words: MpuRegionWords) -> Self {
        if rnr < self.regions.len() {
            MpuState { region_number: rnr, regions: self.regions.update(rnr as int, words), ..self }
        } else {
            self.select(rnr)
        }
    }

    /// The state after one step. The barriers change no register. A write
    /// to a region word goes to the selected region; where the region
    /// number selects no region, it is lost.
    pub open spec fn after(self, op: MpuOp) -> Self {
        match op {
            MpuOp::DataSyncBarrier => self,
            MpuOp::InstrSyncBarrier => self,
            MpuOp::WriteControl(word) => MpuState { ctrl: word, ..self },
            MpuOp::SelectRegion(rnr) => self.select(rnr),
            MpuOp::WriteRegionBase(word) => if self.region_number < self.regions.len() {
                self.program(
                    self.region_number,
                    MpuRegionWords { base: word, ..self.regions[self.region_number as int] },
                )
            } else {
                self
            },
            MpuOp::WriteRegionControl(word) => if self.region_number < self.regions.len() {
                self.program(
                    self.region_number,
                    MpuRegionWords { control: word, ..self.regions[self.region_number as int] },
                )
            } else {
                self
            },
        }
    }

    /// The state after the steps of `ops`, taken in order.
    pub open spec fn after_all(self, ops: Seq<MpuOp>) -> Self
        decreases ops.len(),
    {
        if ops.len() == 0 {
            self
        } else {
            self.after_all(ops.drop_last()).after(ops.last())
        }
    }
}

/// The words that `region` is programmed with.
pub open spec fn words_of(region: ProtectedMemoryRegion) -> MpuRegionWords {
    MpuRegionWords { control: region.control_word() as u32, base: region.base_word() as u32 }
}

/// The registers of a protection unit as plain values: a stand-in for the
/// hardware, on which the steps of an update can be carried out.
pub struct MpuRegisters {
    type_word: u32,
    ctrl: u32,
    region_number: u32,
    regions: Vec<MpuRegionWords>,
}

impl View for MpuRegisters {
    type V = MpuState;

    closed spec fn view(&self) -> MpuState {
        MpuState {
            type_word: self.type_word,
            ctrl: self.ctrl,
            region_number: self.region_number,
            regions: self.regions@,
        }
    }
}

impl MpuRegisters {
    #[verifier::type_invariant]
    spec fn inv(self) -> bool {
        self@.wf()
    }

    /// A protection unit with `supported` regions after reset: switched
    /// off, with every region disabled.
    pub fn new(supported: u8) -> (unit: Self)
        ensures
            unit@.wf(),
            unit@.type_word == field_at(supported as nat, TYPE_REGIONS_OFFSET as nat),
            unit@.ctrl == 0,
            unit@.region_number == 0,
            unit@.regions == Seq::new(
                supported as nat,
                |i: int| MpuRegionWords { control: 0, base: 0 },
            ),
    {
        proof {
            lemma2_to64();
        }
        let type_word: u32 = insert_field(
            0,
            TYPE_REGIONS_OFFSET,
            TYPE_REGIONS_WIDTH,
            supported as u32,
        );
        proof {
            lemma_field_among_others(
                0,
                supported as nat,
                0,
                TYPE_REGIONS_OFFSET as nat,
                TYPE_REGIONS_WIDTH as nat,
            );
            lemma_insert_above(
                0,
                TYPE_REGIONS_OFFSET as nat,
                TYPE_REGIONS_WIDTH as nat,
                supported as nat,
            );
        }
        let mut regions: Vec<MpuRegionWords> = Vec::new();
        let mut rnr: u8 = 0;
        while rnr < supported
            invariant
                rnr <= supported,
                regions@ == Seq::new(rnr as nat, |i: int| MpuRegionWords { control: 0, base: 0 }),
            decreases supported - rnr,
        {
            regions.push(MpuRegionWords { control: 0, base: 0 });
            rnr += 1;
        }
        MpuRegisters { type_word, ctrl: 0, region_number: 0, regions }
    }

    /// The value of the control register.
    pub fn ctrl(&self) -> (word: u32)
        ensures
            word == self@.ctrl,
    {
        self.ctrl
    }

    /// The value of the region number register.
    pub fn region_number(&self) -> (rnr: u32)
        ensures
            rnr == self@.region_number,
    {
        self.region_number
    }

    /// The words of the selected region; zeros where the region number
    /// selects no region.
    pub fn selected_words(&self) -> (words: MpuRegionWords)
        ensures
            self@.wf(),
            self@.region_number < self@.regions.len() ==> words == self@.regions[self@.region_number as int],
            self@.region_number >= self@.regions.len() ==> words == (MpuRegionWords {
                control: 0,
                base: 0,
            }),
    {
        proof {
            use_type_invariant(self);
        }
        if (self.region_number as usize) < self.regions.len() {
            self.regions[self.region_number as usize]
        } else {
            MpuRegionWords { control: 0, base: 0 }
        }
    }

    /// Carries out one step.
    pub fn apply(&mut self, op: MpuOp)
        ensures
            final(self)@ == old(self)@.after(op),
            final(self)@.wf(),
    {
        proof {
            use_type_invariant(&*self);
        }
        match op {
            MpuOp::DataSyncBarrier => {},
            MpuOp::InstrSyncBarrier => {},
            MpuOp::WriteControl(word) => {
                self.ctrl = word;
            },
            MpuOp::SelectRegion(rnr) => {
                self.region_number = rnr;
            },
            MpuOp::WriteRegionBase(word) => {
                if (self.region_number as usize) < self.regions.len() {
                    let rnr: usize = self.region_number as usize;
                    let words: MpuRegionWords = self.regions[rnr];
                    self.regions[rnr] = MpuRegionWords { base: word, control: words.control };
                }
            },
            MpuOp::WriteRegionControl(word) => {
                if (self.region_number as usize) < self.regions.len() {
                    let rnr: usize = self.region_number as usize;
                    let words: MpuRegionWords = self.regions[rnr];
                    self.regions[rnr] = MpuRegionWords { control: word, base: words.base };
                }
            },
        }
    }

    /// Carries out the steps of `ops`, in order.
    pub fn run(&mut self, ops: &Vec<MpuOp>)
        ensures
            final(self)@ == old(self)@.after_all(ops@),
            final(self)@.wf(),
    {
        proof {
            use_type_invariant(&*self);
        }
        let mut done: usize = 0;
        while done < ops.len()
            invariant
                done <= ops.len(),
                self@ == old(self)@.after_all(ops@.take(done as int)),
                self@.wf(),
            decreases ops.len() - done,
        {
            proof {
                assert(ops@.take(done + 1).drop_last() == ops@.take(done as int));
            }
            self.apply(ops[done]);
            done += 1;
        }
        proof {
            assert(ops@.take(done as int) == ops@);
        }
    }

    /// Reads the control word of every region, selecting each region in
    /// turn.
    pub fn read_controls(&mut self) -> (controls: Vec<u32>)
        ensures
            controls@ == old(self)@.controls(),
            controls.len() <= u8::MAX,
            final(self)@.wf(),
            old(self)@.regions.len() == 0 ==> final(self)@ == old(self)@,
            old(self)@.regions.len() > 0 ==> final(self)@ == old(self)@.select(
                (old(self)@.regions.len() - 1) as u32,
            ),
    {
        proof {
            use_type_invariant(&*self);
            lemma2_to64();
        }
        let supported: u8 = supported_regions_of(self.type_word);
        let mut controls: Vec<u32> = Vec::new();
        let mut rnr: u8 = 0;
        while rnr < supported
            invariant
                rnr <= supported,
                supported == self@.regions.len(),
                self@.wf(),
                controls@ == old(self)@.controls().take(rnr as int),
                rnr == 0 ==> self@ == old(self)@,
                rnr > 0 ==> self@ == old(self)@.select((rnr - 1) as u32),
            decreases supported - rnr,
        {
            self.apply(MpuOp::SelectRegion(rnr as u32));
            let words: MpuRegionWords = self.selected_words();
            controls.push(words.control);
            proof {
                assert(controls@ == old(self)@.controls().take(rnr + 1));
            }
            rnr += 1;
        }
        proof {
            assert(old(self)@.controls().take(rnr as int) == old(self)@.controls());
        }
        controls
    }
}

/// Carrying out one more step after some steps is carrying out the longer
/// sequence.
pub proof fn lemma_after_all_push(state: MpuState, ops: Seq<MpuOp>, op: MpuOp)
    ensures
        state.after_all(ops.push(op)) == state.after_all(ops).after(op),
{
    assert(ops.push(op).drop_last() == ops);
}

/// The steps of `enable` replace the three switches of the control
/// register and leave every other register as it is.
pub proof fn lemma_enable_effect(state: MpuState)
    ensures
        state.after_all(enable_sequence(state.ctrl)) == (MpuState {
            ctrl: enabled_ctrl(state.ctrl as nat) as u32,
            ..state
        }),
{
    let a = MpuOp::DataSyncBarrier;
    let b = MpuOp::WriteControl(enabled_ctrl(state.ctrl as nat) as u32);
    let d = MpuOp::InstrSyncBarrier;
    let none = Seq::<MpuOp>::empty();
    assert(state.after_all(none) == state);
    lemma_after_all_push(state, none, a);
    lemma_after_all_push(state, none.push(a), b);
    lemma_after_all_push(state, none.push(a).push(b), a);
    lemma_after_all_push(state, none.push(a).push(b).push(a), d);
    assert(enable_sequence(state.ctrl) == none.push(a).push(b).push(a).push(d));
}

/// The steps of `disable` clear the control register and leave every other
/// register as it is.
pub proof fn lemma_disable_effect(state: MpuState)
    ensures
        state.after_all(disable_sequence()) == (MpuState { ctrl: 0, ..state }),
        !unit_enabled(0),
{
    let a = MpuOp::DataSyncBarrier;
    let b = MpuOp::WriteControl(0);
    let d = MpuOp::InstrSyncBarrier;
    let none = Seq::<MpuOp>::empty();
    assert(state.after_all(none) == state);
    lemma_after_all_push(state, none, a);
    lemma_after_all_push(state, none.push(a), b);
    lemma_after_all_push(state, none.push(a).push(b), a);
    lemma_after_all_push(state, none.push(a).push(b).push(a), d);
    assert(disable_sequence() == none.push(a).push(b).push(a).push(d));
    lemma2_to64();
}

/// The steps of `set_region` put the words of `region` into region `rnr`,
/// select that region, and leave the control register and the other regions
/// as they are. Where the unit has no region `rnr`, they only select it.
pub proof fn lemma_set_region_effect(state: MpuState, region: ProtectedMemoryRegion, rnr: u8)
    ensures
        state.after_all(set_region_sequence(state.ctrl, region, rnr)) == state.program(
            rnr as u32,
            words_of(region),
        ),
{
    let dsb = MpuOp::DataSyncBarrier;
    let isb = MpuOp::InstrSyncBarrier;
    let off = MpuOp::WriteControl(0);
    let on = MpuOp::WriteControl(state.ctrl);
    let sel = MpuOp::SelectRegion(rnr as u32);
    let base = MpuOp::WriteRegionBase(region.base_word() as u32);
    let control = MpuOp::WriteRegionControl(region.control_word() as u32);
    let none = Seq::<MpuOp>::empty();
    let ops = set_region_sequence(state.ctrl, region, rnr);
    let target = state.program(rnr as u32, words_of(region));
    assert(state.after_all(none) == state);
    if unit_enabled(state.ctrl as nat) {
        let s1 = none.push(dsb);
        let s2 = s1.push(off);
        let s3 = s2.push(sel);
        let s4 = s3.push(base);
        let s5 = s4.push(control);
        let s6 = s5.push(on);
        let s7 = s6.push(dsb);
        let s8 = s7.push(isb);
        lemma_after_all_push(state, none, dsb);
        lemma_after_all_push(state, s1, off);
        lemma_after_all_push(state, s2, sel);
        lemma_after_all_push(state, s3, base);
        lemma_after_all_push(state, s4, control);
        lemma_after_all_push(state, s5, on);
        lemma_after_all_push(state, s6, dsb);
        lemma_after_all_push(state, s7, isb);
        assert(ops == s8);
        let written = state.after_all(s5);
        assert(written.regions == target.regions);
        assert(state.after_all(s8) == target);
    } else {
        let s1 = none.push(sel);
        let s2 = s1.push(base);
        let s3 = s2.push(control);
        lemma_after_all_push(state, none, sel);
        lemma_after_all_push(state, s1, base);
        lemma_after_all_push(state, s2, control);
        assert(ops == s3);
        let written = state.after_all(s3);
        assert(written.regions == target.regions);
        assert(written == target);
    }
}

/// A table whose regions are all in use has no free region. Once one of
/// its regions is disabled, that region is the first free one.
pub proof fn lemma_freed_region_is_first_free(controls: Seq<u32>, slot: int, cleared: u32)
    requires
        all_enabled(controls),
        0 <= slot < controls.len(),
        !region_enabled(cleared as nat),
    ensures
        forall|other: int| !is_first_free(controls, other),
        is_first_free(controls.update(slot, cleared), slot),
{
}

/// A unit whose regions are all in use has no free region. Once one of the
/// regions holds words with the enable bit clear, that region is the first
/// free one.
pub proof fn lemma_freed_region_is_reused(state: MpuState, rnr: u32, cleared: MpuRegionWords)
    requires
        all_enabled(state.controls()),
        rnr < state.regions.len(),
        !region_enabled(cleared.control as nat),
    ensures
        forall|other: int| !is_first_free(state.controls(), other),
        is_first_free(state.program(rnr, cleared).controls(), rnr as int),
{
    assert(state.program(rnr, cleared).controls() == state.controls().update(
        rnr as int,
        cleared.control,
    ));
    lemma_freed_region_is_first_free(state.controls(), rnr as int, cleared.control);
}

/// The operations of a protection unit.
pub trait Mpu {
    /// Enable Memory Protection Unit
    fn enable(&mut self);

    /// Disable Memory Protection Unit
    fn disable(&mut self);

    /// Whether the Memory Protection Unit is enabled
    fn is_enabled(&self) -> bool;

    /// Supported Region Number
    fn supported_regions(&self) -> u8;

    /// Count active regions
    fn count_regions(&mut self) -> u8;

    /// Read settings of region by number
    fn get_region(&mut self, rnr: u8) -> Result<ProtectedMemoryRegion, RegionDecodeError>;

    /// Set Memory Region Options for specific region
    fn set_region(&mut self, region: ProtectedMemoryRegion, rnr: u8);

    /// Add Region to free MPU slot
    fn add_region(&mut self, region: ProtectedMemoryRegion) -> Result<(), MemoryRegionsFull>;
}

impl Mpu for MpuRegisters {
    fn enable(&mut self)
        ensures
            final(self)@ == (MpuState {
                ctrl: enabled_ctrl(old(self)@.ctrl as nat) as u32,
                ..old(self)@
            }),
            final(self)@ == old(self)@.after_all(enable_sequence(old(self)@.ctrl)),
    {
        proof {
            lemma_enable_effect(self@);
        }
        let ops: Vec<MpuOp> = enable_ops(self.ctrl);
        self.run(&ops);
    }

    fn disable(&mut self)
        ensures
            final(self)@ == (MpuState { ctrl: 0, ..old(self)@ }),
            final(self)@ == old(self)@.after_all(disable_sequence()),
    {
        proof {
            lemma_disable_effect(self@);
        }
        let ops: Vec<MpuOp> = disable_ops();
        self.run(&ops);
    }

    fn is_enabled(&self) -> (enabled: bool)
        ensures
            enabled == unit_enabled(self@.ctrl as nat),
    {
        ctrl_is_enabled(self.ctrl)
    }

    fn supported_regions(&self) -> (count: u8)
        ensures
            count == self@.regions.len(),
            self@.wf(),
    {
        proof {
            use_type_invariant(self);
        }
        supported_regions_of(self.type_word)
    }

    fn count_regions(&mut self) -> (count: u8)
        ensures
            count == enabled_among(old(self)@.controls(), old(self)@.regions.len()),
            old(self)@.regions.len() == 0 ==> final(self)@ == old(self)@,
            old(self)@.regions.len() > 0 ==> final(self)@ == old(self)@.select(
                (old(self)@.regions.len() - 1) as u32,
            ),
    {
        let controls: Vec<u32> = self.read_controls();
        count_enabled(&controls)
    }

    fn get_region(&mut self, rnr: u8) -> (region: Result<ProtectedMemoryRegion, RegionDecodeError>)
        ensures
            final(self)@ == old(self)@.select(rnr as u32),
            rnr < old(self)@.regions.len() ==> region == ProtectedMemoryRegion::of_words(
                old(self)@.regions[rnr as int].control as nat,
                old(self)@.regions[rnr as int].base as nat,
            ),
            rnr >= old(self)@.regions.len() ==> region == Err::<
                ProtectedMemoryRegion,
                RegionDecodeError,
            >(RegionDecodeError::Disabled(MemoryRegionDisabled)),
    {
        proof {
            lemma2_to64();
        }
        self.apply(MpuOp::SelectRegion(rnr as u32));
        let words: MpuRegionWords = self.selected_words();
        ProtectedMemoryRegion::decode(words.control, words.base)
    }

    fn set_region(&mut self, region: ProtectedMemoryRegion, rnr: u8)
        ensures
            final(self)@ == old(self)@.program(rnr as u32, words_of(region)),
            final(self)@ == old(self)@.after_all(
                set_region_sequence(old(self)@.ctrl, region, rnr),
            ),
    {
        proof {
            lemma_set_region_effect(self@, region, rnr);
        }
        let ops: Vec<MpuOp> = set_region_ops(self.ctrl, &region, rnr);
        self.run(&ops);
    }

    fn add_region(&mut self, region: ProtectedMemoryRegion) -> (added: Result<(), MemoryRegionsFull>)
        ensures
            all_enabled(old(self)@.controls()) <==> added is Err,
            added is Err && old(self)@.regions.len() == 0 ==> final(self)@ == old(self)@,
            added is Err && old(self)@.regions.len() > 0 ==> final(self)@ == old(self)@.select(
                (old(self)@.regions.len() - 1) as u32,
            ),
            added is Ok ==> exists|slot: int|
                {
                    &&& #[trigger] is_first_free(old(self)@.controls(), slot)
                    &&& final(self)@ == old(self)@.program(slot as u32, words_of(region))
                },
    {
        let controls: Vec<u32> = self.read_controls();
        match first_free(&controls) {
            Some(rnr) => {
                self.set_region(region, rnr);
                proof {
                    assert(is_first_free(old(self)@.controls(), rnr as int));
                }
                Ok(())
            },
            None => Err(MemoryRegionsFull),
        }
    }
}

} // verus!
