//! Codec for 32-bit power-data-object (PDO) words.
//!
//! A PDO word carries a tag in bits 31:30 that selects one of four layouts
//! (fixed, variable, battery, augmented); the remaining 30 bits are a packed
//! record of voltage/current/power fields and capability flags. The codec is
//! lossless: decoding never alters the word, and encoding returns the backing
//! word unchanged.

use vstd::prelude::*;

verus! {

// Tag values held in bits 31:30 of a PDO word, pre-shifted into place.
pub const PDO_SNK_FIXED: u32 = 0x0000_0000;
pub const PDO_SNK_VARIABLE: u32 = 0x4000_0000;
pub const PDO_SNK_BATTERY: u32 = 0x8000_0000;
pub const PDO_SNK_AUGMENTED: u32 = 0xC000_0000;

// Flag bits of the fixed layout.
pub const FIXED_DUAL_ROLE_POWER: u32 = 0x2000_0000;
pub const FIXED_HIGHER_CAPABILITY: u32 = 0x1000_0000;
pub const FIXED_UNCONSTRAINED_POWER: u32 = 0x0800_0000;
pub const FIXED_USB_COMMUNICATIONS_CAPABLE: u32 = 0x0400_0000;
pub const FIXED_DUAL_ROLE_DATA: u32 = 0x0200_0000;

/// Value of the bit field of `w` that starts at bit `lo` and whose width is
/// given by `mask` (a right-aligned run of one bits).
pub open spec fn spec_get_field(w: u32, lo: u32, mask: u32) -> u32 {
    (w >> lo) & mask
}

/// `w` with the bit field at `lo`/`mask` replaced by the low bits of `v`;
/// `v` is truncated to the field width.
pub open spec fn spec_set_field(w: u32, lo: u32, mask: u32, v: u32) -> u32 {
    (w & !(mask << lo)) | ((v & mask) << lo)
}

/// Whether the flag bit(s) selected by `mask` are set in `w`.
pub open spec fn spec_get_flag(w: u32, mask: u32) -> bool {
    w & mask != 0
}

/// `w` with the flag bits selected by `mask` set or cleared.
pub open spec fn spec_set_flag(w: u32, mask: u32, on: bool) -> u32 {
    if on {
        w | mask
    } else {
        w & !mask
    }
}

fn get_field(w: u32, lo: u32, mask: u32) -> (r: u32)
    requires
        lo < 32,
    ensures
        r == spec_get_field(w, lo, mask),
{
    (w >> lo) & mask
}

fn set_field(w: u32, lo: u32, mask: u32, v: u32) -> (r: u32)
    requires
        lo < 32,
    ensures
        r == spec_set_field(w, lo, mask, v),
{
    (w & !(mask << lo)) | ((v & mask) << lo)
}

fn get_flag(w: u32, mask: u32) -> (r: bool)
    ensures
        r == spec_get_flag(w, mask),
{
    w & mask != 0
}

fn set_flag(w: u32, mask: u32, on: bool) -> (r: u32)
    ensures
        r == spec_set_flag(w, mask, on),
{
    if on {
        w | mask
    } else {
        w & !mask
    }
}

/// Fast-role-swap current advertised by a fixed PDO, a 2-bit field with a
/// fixed ordinal mapping.
#[derive(Clone, Copy, Debug, PartialEq, Eq, Structural, PartialOrd)]
pub enum FastSwapSupport {
    NotSupported,
    DefaultUsb,
    _1A5_5V,
    _3A0_5V,
}

/// Ordinal of a fast-role-swap level, as stored in bits 24:23 of a fixed PDO.
pub open spec fn fast_swap_ordinal(f: FastSwapSupport) -> u32 {
    match f {
        FastSwapSupport::NotSupported => 0,
        FastSwapSupport::DefaultUsb => 1,
        FastSwapSupport::_1A5_5V => 2,
        FastSwapSupport::_3A0_5V => 3,
    }
}

/// Fast-role-swap level denoted by the low two bits of `v`; higher bits are
/// ignored, so the conversion never fails.
pub open spec fn fast_swap_of_bits(v: u32) -> FastSwapSupport {
    if v & 3 == 0 {
        FastSwapSupport::NotSupported
    } else if v & 3 == 1 {
        FastSwapSupport::DefaultUsb
    } else if v & 3 == 2 {
        FastSwapSupport::_1A5_5V
    } else {
        FastSwapSupport::_3A0_5V
    }
}

/// Display text of a fast-role-swap level.
pub open spec fn spec_fast_swap_label(f: FastSwapSupport) -> Seq<char> {
    match f {
        FastSwapSupport::NotSupported => "Not supported"@,
        FastSwapSupport::DefaultUsb => "0.5A @ 5V"@,
        FastSwapSupport::_1A5_5V => "1.5A @ 5V"@,
        FastSwapSupport::_3A0_5V => "3.0A @ 5V"@,
    }
}

impl FastSwapSupport {
    /// Human-readable text of this level.
    pub fn label(&self) -> (r: String)
        ensures
            r@ == spec_fast_swap_label(*self),
    {
        match *self {
            FastSwapSupport::NotSupported => "Not supported".to_owned(),
            FastSwapSupport::DefaultUsb => "0.5A @ 5V".to_owned(),
            FastSwapSupport::_1A5_5V => "1.5A @ 5V".to_owned(),
            FastSwapSupport::_3A0_5V => "3.0A @ 5V".to_owned(),
        }
    }

    /// Ordinal value of this level, the inverse of `From<u32>`.
    pub fn to_u32(self) -> (r: u32)
        ensures
            r == fast_swap_ordinal(self),
    {
        match self {
            FastSwapSupport::NotSupported => 0,
            FastSwapSupport::DefaultUsb => 1,
            FastSwapSupport::_1A5_5V => 2,
            FastSwapSupport::_3A0_5V => 3,
        }
    }
}

impl From<u32> for FastSwapSupport {
    fn from(value: u32) -> (r: Self) {
        let t: u32 = value & 3;
        if t == 0 {
            FastSwapSupport::NotSupported
        } else if t == 1 {
            FastSwapSupport::DefaultUsb
        } else if t == 2 {
            FastSwapSupport::_1A5_5V
        } else {
            FastSwapSupport::_3A0_5V
        }
    }
}

impl vstd::std_specs::convert::FromSpecImpl<u32> for FastSwapSupport {
    open spec fn obeys_from_spec() -> bool {
        true
    }

    open spec fn from_spec(v: u32) -> Self {
        fast_swap_of_bits(v)
    }
}

impl Default for FastSwapSupport {
    fn default() -> (r: Self)
        ensures
            r == FastSwapSupport::NotSupported,
    {
        FastSwapSupport::NotSupported
    }
}

/// Converting a fast-role-swap level to its ordinal and back yields the same
/// level, for every enumerator.
pub proof fn lemma_fast_swap_round_trip(f: FastSwapSupport)
    ensures
        fast_swap_of_bits(fast_swap_ordinal(f)) == f,
{
    assert(0u32 & 3 == 0) by (bit_vector);
    assert(1u32 & 3 == 1) by (bit_vector);
    assert(2u32 & 3 == 2) by (bit_vector);
    assert(3u32 & 3 == 3) by (bit_vector);
}

/// Fixed-voltage sink PDO (tag 0).
#[derive(Clone, Copy, Debug, PartialEq, Eq, Structural)]
pub struct FixedPdo(pub u32);

impl View for FixedPdo {
    type V = u32;

    open spec fn view(&self) -> u32 {
        self.0
    }
}

impl Default for FixedPdo {
    fn default() -> (r: Self)
        ensures
            r@ == PDO_SNK_FIXED,
    {
        FixedPdo(PDO_SNK_FIXED)
    }
}

/// Backing word of a fixed PDO built from a voltage and a current, both
/// truncated to their 10-bit fields; tag bits and all flags are zero.
pub open spec fn fixed_word(voltage: u16, current: u16) -> u32 {
    (((voltage as u32) & 0x3FF) << 10) | ((current as u32) & 0x3FF)
}

proof fn lemma_fixed_word_build(voltage: u16, current: u16)
    by (bit_vector)
    ensures
        spec_set_field(
            spec_set_field(PDO_SNK_FIXED, 10, 0x3FF, voltage as u32),
            0,
            0x3FF,
            current as u32,
        ) == fixed_word(voltage, current),
{
}

/// A fixed PDO built from a voltage and a current has the voltage (truncated
/// to 10 bits) in bits 19:10, the current in bits 9:0, a zero tag, a zero
/// fast-role-swap field, and every capability flag clear.
pub proof fn lemma_new_fixed_layout(voltage: u16, current: u16)
    by (bit_vector)
    ensures
        spec_get_field(fixed_word(voltage, current), 10, 0x3FF) == (voltage as u32) & 0x3FF,
        spec_get_field(fixed_word(voltage, current), 0, 0x3FF) == (current as u32) & 0x3FF,
        fixed_word(voltage, current) >> 30 == 0,
        spec_get_field(fixed_word(voltage, current), 23, 3) == 0,
        !spec_get_flag(fixed_word(voltage, current), FIXED_DUAL_ROLE_POWER),
        !spec_get_flag(fixed_word(voltage, current), FIXED_HIGHER_CAPABILITY),
        !spec_get_flag(fixed_word(voltage, current), FIXED_UNCONSTRAINED_POWER),
        !spec_get_flag(fixed_word(voltage, current), FIXED_USB_COMMUNICATIONS_CAPABLE),
        !spec_get_flag(fixed_word(voltage, current), FIXED_DUAL_ROLE_DATA),
{
}

impl FixedPdo {
    /// Fixed PDO with the given 10-bit voltage and current fields and default
    /// (all clear) flags.
    pub fn new(voltage: u16, current: u16) -> (r: Self)
        ensures
            r@ == fixed_word(voltage, current),
    {
        let mut pdo: FixedPdo = Default::default();
        pdo.set_voltage(voltage as u32);
        pdo.set_current(current as u32);
        proof {
            lemma_fixed_word_build(voltage, current);
        }
        pdo
    }

    /// Raw backing word.
    pub fn bits(&self) -> (r: u32)
        ensures
            r == self@,
    {
        self.0
    }

    /// Tag field, bits 31:30.
    pub fn fixed(&self) -> (r: u32)
        ensures
            r == spec_get_field(self@, 30, 3),
    {
        get_field(self.0, 30, 3)
    }

    pub fn dual_role_power(&self) -> (r: bool)
        ensures
            r == spec_get_flag(self@, FIXED_DUAL_ROLE_POWER),
    {
        get_flag(self.0, FIXED_DUAL_ROLE_POWER)
    }

    pub fn set_dual_role_power(&mut self, on: bool)
        ensures
            final(self)@ == spec_set_flag(old(self)@, FIXED_DUAL_ROLE_POWER, on),
    {
        self.0 = set_flag(self.0, FIXED_DUAL_ROLE_POWER, on);
    }

    pub fn higher_capability(&self) -> (r: bool)
        ensures
            r == spec_get_flag(self@, FIXED_HIGHER_CAPABILITY),
    {
        get_flag(self.0, FIXED_HIGHER_CAPABILITY)
    }

    pub fn set_higher_capability(&mut self, on: bool)
        ensures
            final(self)@ == spec_set_flag(old(self)@, FIXED_HIGHER_CAPABILITY, on),
    {
        self.0 = set_flag(self.0, FIXED_HIGHER_CAPABILITY, on);
    }

    pub fn unconstrained_power(&self) -> (r: bool)
        ensures
            r == spec_get_flag(self@, FIXED_UNCONSTRAINED_POWER),
    {
        get_flag(self.0, FIXED_UNCONSTRAINED_POWER)
    }

    pub fn set_unconstrained_power(&mut self, on: bool)
        ensures
            final(self)@ == spec_set_flag(old(self)@, FIXED_UNCONSTRAINED_POWER, on),
    {
        self.0 = set_flag(self.0, FIXED_UNCONSTRAINED_POWER, on);
    }

    pub fn usb_communications_capable(&self) -> (r: bool)
        ensures
            r == spec_get_flag(self@, FIXED_USB_COMMUNICATIONS_CAPABLE),
    {
        get_flag(self.0, FIXED_USB_COMMUNICATIONS_CAPABLE)
    }

    pub fn set_usb_communications_capable(&mut self, on: bool)
        ensures
            final(self)@ == spec_set_flag(old(self)@, FIXED_USB_COMMUNICATIONS_CAPABLE, on),
    {
        self.0 = set_flag(self.0, FIXED_USB_COMMUNICATIONS_CAPABLE, on);
    }

    pub fn dual_role_data(&self) -> (r: bool)
        ensures
            r == spec_get_flag(self@, FIXED_DUAL_ROLE_DATA),
    {
        get_flag(self.0, FIXED_DUAL_ROLE_DATA)
    }

    pub fn set_dual_role_data(&mut self, on: bool)
        ensures
            final(self)@ == spec_set_flag(old(self)@, FIXED_DUAL_ROLE_DATA, on),
    {
        self.0 = set_flag(self.0, FIXED_DUAL_ROLE_DATA, on);
    }

    /// Fast-role-swap field, bits 24:23, as its enumerated level.
    pub fn fast_role_swap(&self) -> (r: FastSwapSupport)
        ensures
            r == fast_swap_of_bits(spec_get_field(self@, 23, 3)),
    {
        FastSwapSupport::from(get_field(self.0, 23, 3))
    }

    pub fn set_fast_role_swap(&mut self, level: FastSwapSupport)
        ensures
            final(self)@ == spec_set_field(old(self)@, 23, 3, fast_swap_ordinal(level)),
    {
        self.0 = set_field(self.0, 23, 3, level.to_u32());
    }

    /// Voltage field, bits 19:10.
    pub fn voltage(&self) -> (r: u32)
        ensures
            r == spec_get_field(self@, 10, 0x3FF),
    {
        get_field(self.0, 10, 0x3FF)
    }

    pub fn set_voltage(&mut self, v: u32)
        ensures
            final(self)@ == spec_set_field(old(self)@, 10, 0x3FF, v),
    {
        self.0 = set_field(self.0, 10, 0x3FF, v);
    }

    /// Current field, bits 9:0.
    pub fn current(&self) -> (r: u32)
        ensures
            r == spec_get_field(self@, 0, 0x3FF),
    {
        get_field(self.0, 0, 0x3FF)
    }

    pub fn set_current(&mut self, v: u32)
        ensures
            final(self)@ == spec_set_field(old(self)@, 0, 0x3FF, v),
    {
        self.0 = set_field(self.0, 0, 0x3FF, v);
    }
}

/// Variable-range sink PDO (tag 1).
#[derive(Clone, Copy, Debug, PartialEq, Eq, Structural)]
pub struct VariablePdo(pub u32);

impl View for VariablePdo {
    type V = u32;

    open spec fn view(&self) -> u32 {
        self.0
    }
}

impl Default for VariablePdo {
    fn default() -> (r: Self)
        ensures
            r@ == PDO_SNK_VARIABLE,
    {
        VariablePdo(PDO_SNK_VARIABLE)
    }
}

impl VariablePdo {
    pub fn bits(&self) -> (r: u32)
        ensures
            r == self@,
    {
        self.0
    }

    /// Tag field, bits 31:30.
    pub fn variable(&self) -> (r: u32)
        ensures
            r == spec_get_field(self@, 30, 3),
    {
        get_field(self.0, 30, 3)
    }

    /// Maximum voltage field, bits 29:20.
    pub fn max_voltage(&self) -> (r: u32)
        ensures
            r == spec_get_field(self@, 20, 0x3FF),
    {
        get_field(self.0, 20, 0x3FF)
    }

    pub fn set_max_voltage(&mut self, v: u32)
        ensures
            final(self)@ == spec_set_field(old(self)@, 20, 0x3FF, v),
    {
        self.0 = set_field(self.0, 20, 0x3FF, v);
    }

    /// Minimum voltage field, bits 19:10.
    pub fn min_voltage(&self) -> (r: u32)
        ensures
            r == spec_get_field(self@, 10, 0x3FF),
    {
        get_field(self.0, 10, 0x3FF)
    }

    pub fn set_min_voltage(&mut self, v: u32)
        ensures
            final(self)@ == spec_set_field(old(self)@, 10, 0x3FF, v),
    {
        self.0 = set_field(self.0, 10, 0x3FF, v);
    }

    /// Current field, bits 9:0.
    pub fn current(&self) -> (r: u32)
        ensures
            r == spec_get_field(self@, 0, 0x3FF),
    {
        get_field(self.0, 0, 0x3FF)
    }

    pub fn set_current(&mut self, v: u32)
        ensures
            final(self)@ == spec_set_field(old(self)@, 0, 0x3FF, v),
    {
        self.0 = set_field(self.0, 0, 0x3FF, v);
    }
}

/// Battery sink PDO (tag 2).
#[derive(Clone, Copy, Debug, PartialEq, Eq, Structural)]
pub struct BatteryPdo(pub u32);

impl View for BatteryPdo {
    type V = u32;

    open spec fn view(&self) -> u32 {
        self.0
    }
}

impl Default for BatteryPdo {
    fn default() -> (r: Self)
        ensures
            r@ == PDO_SNK_BATTERY,
    {
        BatteryPdo(PDO_SNK_BATTERY)
    }
}

impl BatteryPdo {
    pub fn bits(&self) -> (r: u32)
        ensures
            r == self@,
    {
        self.0
    }

    /// Tag field, bits 31:30.
    pub fn battery(&self) -> (r: u32)
        ensures
            r == spec_get_field(self@, 30, 3),
    {
        get_field(self.0, 30, 3)
    }

    /// Maximum voltage field, bits 29:20.
    pub fn max_voltage(&self) -> (r: u32)
        ensures
            r == spec_get_field(self@, 20, 0x3FF),
    {
        get_field(self.0, 20, 0x3FF)
    }

    pub fn set_max_voltage(&mut self, v: u32)
        ensures
            final(self)@ == spec_set_field(old(self)@, 20, 0x3FF, v),
    {
        self.0 = set_field(self.0, 20, 0x3FF, v);
    }

    /// Minimum voltage field, bits 19:10.
    pub fn min_voltage(&self) -> (r: u32)
        ensures
            r == spec_get_field(self@, 10, 0x3FF),
    {
        get_field(self.0, 10, 0x3FF)
    }

    pub fn set_min_voltage(&mut self, v: u32)
        ensures
            final(self)@ == spec_set_field(old(self)@, 10, 0x3FF, v),
    {
        self.0 = set_field(self.0, 10, 0x3FF, v);
    }

    /// Power field, bits 9:0.
    pub fn power(&self) -> (r: u32)
        ensures
            r == spec_get_field(self@, 0, 0x3FF),
    {
        get_field(self.0, 0, 0x3FF)
    }

    pub fn set_power(&mut self, v: u32)
        ensures
            final(self)@ == spec_set_field(old(self)@, 0, 0x3FF, v),
    {
        self.0 = set_field(self.0, 0, 0x3FF, v);
    }
}

/// Augmented (programmable) sink PDO (tag 3).
#[derive(Clone, Copy, Debug, PartialEq, Eq, Structural)]
pub struct AugmentedPdo(pub u32);

impl View for AugmentedPdo {
    type V = u32;

    open spec fn view(&self) -> u32 {
        self.0
    }
}

impl Default for AugmentedPdo {
    fn default() -> (r: Self)
        ensures
            r@ == PDO_SNK_AUGMENTED,
    {
        AugmentedPdo(PDO_SNK_AUGMENTED)
    }
}

impl AugmentedPdo {
    pub fn bits(&self) -> (r: u32)
        ensures
            r == self@,
    {
        self.0
    }

    /// Tag field, bits 31:30.
    pub fn battery(&self) -> (r: u32)
        ensures
            r == spec_get_field(self@, 30, 3),
    {
        get_field(self.0, 30, 3)
    }

    /// Programmable-supply discriminator, bits 29:28.
    pub fn progdev(&self) -> (r: u32)
        ensures
            r == spec_get_field(self@, 28, 3),
    {
        get_field(self.0, 28, 3)
    }

    /// Maximum voltage field, bits 25:18.
    pub fn max_voltage(&self) -> (r: u32)
        ensures
            r == spec_get_field(self@, 18, 0xFF),
    {
        get_field(self.0, 18, 0xFF)
    }

    pub fn set_max_voltage(&mut self, v: u32)
        ensures
            final(self)@ == spec_set_field(old(self)@, 18, 0xFF, v),
    {
        self.0 = set_field(self.0, 18, 0xFF, v);
    }

    /// Minimum voltage field, bits 16:8.
    pub fn min_voltage(&self) -> (r: u32)
        ensures
            r == spec_get_field(self@, 8, 0x1FF),
    {
        get_field(self.0, 8, 0x1FF)
    }

    pub fn set_min_voltage(&mut self, v: u32)
        ensures
            final(self)@ == spec_set_field(old(self)@, 8, 0x1FF, v),
    {
        self.0 = set_field(self.0, 8, 0x1FF, v);
    }

    /// Maximum current field, bits 6:0.
    pub fn max_current(&self) -> (r: u32)
        ensures
            r == spec_get_field(self@, 0, 0x7F),
    {
        get_field(self.0, 0, 0x7F)
    }

    pub fn set_max_current(&mut self, v: u32)
        ensures
            final(self)@ == spec_set_field(old(self)@, 0, 0x7F, v),
    {
        self.0 = set_field(self.0, 0, 0x7F, v);
    }
}

/// A decoded PDO: one of the four layouts, wrapping its raw word.
#[derive(Clone, Copy, Debug, PartialEq, Eq, Structural)]
pub enum Pdo {
    Fixed(FixedPdo),
    Variable(VariablePdo),
    Battery(BatteryPdo),
    Augmented(AugmentedPdo),
}

impl View for Pdo {
    type V = u32;

    open spec fn view(&self) -> u32 {
        match *self {
            Pdo::Fixed(p) => p.0,
            Pdo::Variable(p) => p.0,
            Pdo::Battery(p) => p.0,
            Pdo::Augmented(p) => p.0,
        }
    }
}

impl Pdo {
    /// Decoded form of `bits`: the variant named by the tag in bits 31:30,
    /// wrapping `bits` unchanged. Total, since a 2-bit tag has a case for
    /// every value.
    pub open spec fn spec_from_bits(bits: u32) -> Option<Pdo> {
        if bits >> 30 == 0 {
            Some(Pdo::Fixed(FixedPdo(bits)))
        } else if bits >> 30 == 1 {
            Some(Pdo::Variable(VariablePdo(bits)))
        } else if bits >> 30 == 2 {
            Some(Pdo::Battery(BatteryPdo(bits)))
        } else {
            Some(Pdo::Augmented(AugmentedPdo(bits)))
        }
    }

    /// Whether the tag bits of the backing word agree with the variant.
    pub open spec fn wf(self) -> bool {
        match self {
            Pdo::Fixed(p) => p.0 >> 30 == 0,
            Pdo::Variable(p) => p.0 >> 30 == 1,
            Pdo::Battery(p) => p.0 >> 30 == 2,
            Pdo::Augmented(p) => p.0 >> 30 == 3,
        }
    }

    /// Fixed PDO with the given 10-bit voltage and current fields and default
    /// flags.
    pub fn new_fixed(voltage: u16, current: u16) -> (r: Self)
        ensures
            r == Pdo::Fixed(FixedPdo(fixed_word(voltage, current))),
    {
        Pdo::Fixed(FixedPdo::new(voltage, current))
    }

    /// Raw 32-bit word of this PDO.
    pub fn bits(&self) -> (r: u32)
        ensures
            r == self@,
    {
        match *self {
            Pdo::Fixed(p) => p.0,
            Pdo::Variable(p) => p.0,
            Pdo::Battery(p) => p.0,
            Pdo::Augmented(p) => p.0,
        }
    }

    /// Decode a 32-bit word by its tag bits. Never returns `None`: every
    /// value of the 2-bit tag has a variant.
    pub fn from_bits(bits: u32) -> (r: Option<Self>)
        ensures
            r == Pdo::spec_from_bits(bits),
            r is Some,
    {
        proof {
            assert((bits & 0xC000_0000 == 0x0000_0000) <==> (bits >> 30 == 0)) by (bit_vector);
            assert((bits & 0xC000_0000 == 0x4000_0000) <==> (bits >> 30 == 1)) by (bit_vector);
            assert((bits & 0xC000_0000 == 0x8000_0000) <==> (bits >> 30 == 2)) by (bit_vector);
            assert((bits & 0xC000_0000 == 0xC000_0000) <==> (bits >> 30 == 3)) by (bit_vector);
            assert(bits >> 30 == 0 || bits >> 30 == 1 || bits >> 30 == 2 || bits >> 30 == 3)
                by (bit_vector);
        }
        let tag: u32 = bits & 0xC000_0000;
        if tag == PDO_SNK_FIXED {
            Some(Pdo::Fixed(FixedPdo(bits)))
        } else if tag == PDO_SNK_VARIABLE {
            Some(Pdo::Variable(VariablePdo(bits)))
        } else if tag == PDO_SNK_BATTERY {
            Some(Pdo::Battery(BatteryPdo(bits)))
        } else {
            Some(Pdo::Augmented(AugmentedPdo(bits)))
        }
    }

    /// Set the dual-role-power flag. A no-op on every variant but `Fixed`.
    pub fn dual_role_power(&mut self, dual: bool) -> (r: &mut Self)
        ensures
            *r == (match *old(self) {
                Pdo::Fixed(p) => Pdo::Fixed(FixedPdo(spec_set_flag(p.0, FIXED_DUAL_ROLE_POWER, dual))),
                _ => *old(self),
            }),
            *final(self) == *final(r),
    {
        match *self {
            Pdo::Fixed(p) => {
                *self = Pdo::Fixed(FixedPdo(set_flag(p.0, FIXED_DUAL_ROLE_POWER, dual)));
            },
            _ => {},
        }
        self
    }

    /// Set the dual-role-data flag. A no-op on every variant but `Fixed`.
    pub fn dual_role_data(&mut self, dual: bool) -> (r: &mut Self)
        ensures
            *r == (match *old(self) {
                Pdo::Fixed(p) => Pdo::Fixed(FixedPdo(spec_set_flag(p.0, FIXED_DUAL_ROLE_DATA, dual))),
                _ => *old(self),
            }),
            *final(self) == *final(r),
    {
        match *self {
            Pdo::Fixed(p) => {
                *self = Pdo::Fixed(FixedPdo(set_flag(p.0, FIXED_DUAL_ROLE_DATA, dual)));
            },
            _ => {},
        }
        self
    }

    /// Set the USB-communications-capable flag. A no-op on every variant but
    /// `Fixed`.
    pub fn usb_communications_capable(&mut self, capable: bool) -> (r: &mut Self)
        ensures
            *r == (match *old(self) {
                Pdo::Fixed(p) => Pdo::Fixed(
                    FixedPdo(spec_set_flag(p.0, FIXED_USB_COMMUNICATIONS_CAPABLE, capable)),
                ),
                _ => *old(self),
            }),
            *final(self) == *final(r),
    {
        match *self {
            Pdo::Fixed(p) => {
                *self = Pdo::Fixed(FixedPdo(set_flag(p.0, FIXED_USB_COMMUNICATIONS_CAPABLE, capable)));
            },
            _ => {},
        }
        self
    }

    /// Set the higher-capability flag. A no-op on every variant but `Fixed`.
    pub fn higher_capability(&mut self, capable: bool) -> (r: &mut Self)
        ensures
            *r == (match *old(self) {
                Pdo::Fixed(p) => Pdo::Fixed(
                    FixedPdo(spec_set_flag(p.0, FIXED_HIGHER_CAPABILITY, capable)),
                ),
                _ => *old(self),
            }),
            *final(self) == *final(r),
    {
        match *self {
            Pdo::Fixed(p) => {
                *self = Pdo::Fixed(FixedPdo(set_flag(p.0, FIXED_HIGHER_CAPABILITY, capable)));
            },
            _ => {},
        }
        self
    }

    /// Set the unconstrained-power flag. A no-op on every variant but `Fixed`.
    pub fn unconstrained_power(&mut self, unconstrained: bool) -> (r: &mut Self)
        ensures
            *r == (match *old(self) {
                Pdo::Fixed(p) => Pdo::Fixed(
                    FixedPdo(spec_set_flag(p.0, FIXED_UNCONSTRAINED_POWER, unconstrained)),
                ),
                _ => *old(self),
            }),
            *final(self) == *final(r),
    {
        match *self {
            Pdo::Fixed(p) => {
                *self = Pdo::Fixed(FixedPdo(set_flag(p.0, FIXED_UNCONSTRAINED_POWER, unconstrained)));
            },
            _ => {},
        }
        self
    }
}

/// Decoding any 32-bit word succeeds, and encoding the decoded PDO gives the
/// word back bit for bit, whatever the tag.
pub proof fn lemma_word_round_trip(w: u32)
    ensures
        Pdo::spec_from_bits(w) matches Some(p) && p@ == w,
{
}

/// Encoding a well-formed PDO and decoding the word gives the same PDO back.
pub proof fn lemma_pdo_round_trip(p: Pdo)
    requires
        p.wf(),
    ensures
        Pdo::spec_from_bits(p@) == Some(p),
{
}

} // verus!
