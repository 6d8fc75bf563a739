//! Module-stop (MSTP) mapping: which clock-gating register and bit stop a
//! given peripheral.
//!
//! A generic rule table keyed by peripheral type gives a register and a base
//! bit, together with a direction that says how the bit moves with the
//! channel number.  A few types (GPT, AGT, ADC, POEG) have family-specific
//! overrides, dispatched on a closed classification of the chip families.
//! Bit arithmetic saturates: a channel larger than the base bit yields bit 0
//! rather than wrapping, and a `Plus` rule is capped at `u32::MAX`.

use vstd::prelude::*;
use crate::text::{
    all_digits, contains_seq, count_trailing_digits, digit_run, digits_val, is_digit, is_upper,
    lemma_trailing_digits, parse_digits, starts_with, str_eq, trailing_digits, upper, upper_char,
    upper_chars, vec_contains_seq, vec_starts_with,
};

verus! {

/// A resolved gating position: register name and bit index.
#[derive(Debug, Clone)]
pub struct MstpInfo {
    pub register: String,
    pub bit: u32,
}

/// Mathematical value of an [`MstpInfo`].
pub ghost struct MstpInfoV {
    pub register: Seq<char>,
    pub bit: u32,
}

impl View for MstpInfo {
    type V = MstpInfoV;

    open spec fn view(&self) -> MstpInfoV {
        MstpInfoV { register: self.register@, bit: self.bit }
    }
}

/// Bit calculation direction for channel-based peripherals.
#[derive(Debug, Clone, Copy)]
pub enum BitDir {
    /// bit = base - channel, saturating at 0 (e.g. SCI: 31 - channel)
    Minus,
    /// bit = base + channel (e.g. SAU: 6 + channel)
    Plus,
    /// bit = base (fixed, channel ignored)
    Fixed,
}

/// MSTP rule for a peripheral type.
#[derive(Debug, Clone, Copy)]
pub struct MstpRule {
    pub register: &'static str,
    pub base_bit: u32,
    pub direction: BitDir,
}

/// Mathematical value of an [`MstpRule`].
pub ghost struct MstpRuleV {
    pub register: Seq<char>,
    pub base_bit: u32,
    pub direction: BitDir,
}

impl View for MstpRule {
    type V = MstpRuleV;

    open spec fn view(&self) -> MstpRuleV {
        MstpRuleV { register: self.register@, base_bit: self.base_bit, direction: self.direction }
    }
}

/// `base - channel`, saturating at zero.
pub open spec fn sat_sub(base: u32, channel: u32) -> u32 {
    if channel <= base {
        (base - channel) as u32
    } else {
        0
    }
}

/// `base + channel`, saturating at `u32::MAX`.
pub open spec fn sat_add(base: u32, channel: u32) -> u32 {
    if base + channel <= u32::MAX {
        (base + channel) as u32
    } else {
        u32::MAX
    }
}

/// The bit selected by direction `d` from base bit `base` for `channel`.
pub open spec fn spec_compute_bit(d: BitDir, base: u32, channel: u32) -> u32 {
    match d {
        BitDir::Minus => sat_sub(base, channel),
        BitDir::Plus => sat_add(base, channel),
        BitDir::Fixed => base,
    }
}

impl MstpRule {
    pub fn new(register: &'static str, base_bit: u32, direction: BitDir) -> (r: Self)
        ensures
            r@.register == register@,
            r@.base_bit == base_bit,
            r@.direction == direction,
    {
        Self { register, base_bit, direction }
    }

    pub fn compute_bit(&self, channel: u32) -> (r: u32)
        ensures
            r == spec_compute_bit(self.direction, self.base_bit, channel),
    {
        match self.direction {
            BitDir::Minus => if channel <= self.base_bit {
                self.base_bit - channel
            } else {
                0
            },
            BitDir::Plus => if channel <= u32::MAX - self.base_bit {
                self.base_bit + channel
            } else {
                u32::MAX
            },
            BitDir::Fixed => self.base_bit,
        }
    }
}

/// RA family classification for family-specific MSTP rules.
#[derive(Debug, Clone, Copy, PartialEq, Eq, Structural)]
pub enum RaFamily {
    /// RA2xx series (some have MSTPCRE)
    Ra2,
    /// RA4xx series
    Ra4,
    /// RA6xx series
    Ra6,
    /// RA6T2 specifically (special GPT handling)
    Ra6t2,
    /// RA8xx series
    Ra8,
    /// RA8 Gen2 (special GPT/AGT/ADC handling)
    Ra8Gen2,
    Other,
}

/// Family of the chip with the given name, decided by prefix (and one
/// infix) tests on the upper-cased name.
pub open spec fn spec_ra_family(name: Seq<char>) -> RaFamily {
    let u = upper(name);
    if contains_seq(u, seq!['R', 'A', '6', 'T', '2']) || starts_with(
        u,
        seq!['R', '7', 'F', 'A', '6', 'T', '2'],
    ) {
        RaFamily::Ra6t2
    } else if starts_with(u, seq!['R', '7', 'F', 'A', '8', 'D']) || starts_with(
        u,
        seq!['R', '7', 'F', 'A', '8', 'T'],
    ) || starts_with(u, seq!['R', '7', 'K', 'A', '8']) {
        RaFamily::Ra8Gen2
    } else if starts_with(u, seq!['R', '7', 'F', 'A', '2']) {
        RaFamily::Ra2
    } else if starts_with(u, seq!['R', '7', 'F', 'A', '4']) {
        RaFamily::Ra4
    } else if starts_with(u, seq!['R', '7', 'F', 'A', '6']) {
        RaFamily::Ra6
    } else if starts_with(u, seq!['R', '7', 'F', 'A', '8']) || starts_with(
        u,
        seq!['R', '7', 'K', 'A', '8'],
    ) {
        RaFamily::Ra8
    } else {
        RaFamily::Other
    }
}

impl RaFamily {
    pub fn from_chip_name(name: &str) -> (r: Self)
        ensures
            r == spec_ra_family(name@),
    {
        let up = upper_chars(name);

        // Check for specific MCU groups first
        let mut w: Vec<char> = Vec::new();
        w.push('R');
        w.push('A');
        w.push('6');
        w.push('T');
        w.push('2');
        proof {
            assert(w@ =~= seq!['R', 'A', '6', 'T', '2']);
        }
        let contains_ra6t2 = vec_contains_seq(&up, &w);
        let mut w2: Vec<char> = Vec::new();
        w2.push('R');
        w2.push('7');
        w2.push('F');
        w2.push('A');
        w2.push('6');
        w2.push('T');
        w2.push('2');
        proof {
            assert(w2@ =~= seq!['R', '7', 'F', 'A', '6', 'T', '2']);
        }
        if contains_ra6t2 || vec_starts_with(&up, &w2) {
            return RaFamily::Ra6t2;
        }

        // RA8 Gen2 detection (R7FA8D1, R7FA8T1, etc.)
        let n = up.len();
        let p5 = n >= 5 && up[0] == 'R' && up[1] == '7' && up[2] == 'F' && up[3] == 'A';
        let k5 = n >= 5 && up[0] == 'R' && up[1] == '7' && up[2] == 'K' && up[3] == 'A' && up[4]
            == '8';
        proof {
            if n >= 5 {
                assert(upper(name@).take(5) =~= seq![up@[0], up@[1], up@[2], up@[3], up@[4]]);
                if n >= 6 {
                    assert(upper(name@).take(6) =~= seq![
                        up@[0],
                        up@[1],
                        up@[2],
                        up@[3],
                        up@[4],
                        up@[5],
                    ]);
                }
            } else {
                assert(upper(name@).len() < 5);
            }
        }
        if n >= 6 && p5 && up[4] == '8' && (up[5] == 'D' || up[5] == 'T') {
            return RaFamily::Ra8Gen2;
        }
        if k5 {
            return RaFamily::Ra8Gen2;
        }

        // General family detection from the chip name pattern R7FAxxxx
        if p5 && up[4] == '2' {
            RaFamily::Ra2
        } else if p5 && up[4] == '4' {
            RaFamily::Ra4
        } else if p5 && up[4] == '6' {
            RaFamily::Ra6
        } else if p5 && up[4] == '8' {
            RaFamily::Ra8
        } else {
            RaFamily::Other
        }
    }
}


/// Rules SCI through SAU of the table.
pub open spec fn spec_mstp_part1(t: Seq<char>) -> Option<MstpRuleV> {
    if t == "SCI"@ {
        Some(MstpRuleV { register: "MSTPCRB"@, base_bit: 31, direction: BitDir::Minus })
    } else if t == "SPI"@ {
        Some(MstpRuleV { register: "MSTPCRB"@, base_bit: 19, direction: BitDir::Minus })
    } else if t == "IIC"@ {
        Some(MstpRuleV { register: "MSTPCRB"@, base_bit: 9, direction: BitDir::Minus })
    } else if t == "RIIC"@ {
        Some(MstpRuleV { register: "MSTPCRB"@, base_bit: 9, direction: BitDir::Minus })
    } else if t == "CAN"@ {
        Some(MstpRuleV { register: "MSTPCRB"@, base_bit: 2, direction: BitDir::Minus })
    } else if t == "CEC"@ {
        Some(MstpRuleV { register: "MSTPCRB"@, base_bit: 3, direction: BitDir::Fixed })
    } else if t == "IRDA"@ {
        Some(MstpRuleV { register: "MSTPCRB"@, base_bit: 5, direction: BitDir::Minus })
    } else if t == "QSPI"@ {
        Some(MstpRuleV { register: "MSTPCRB"@, base_bit: 6, direction: BitDir::Minus })
    } else if t == "SAU"@ {
        Some(MstpRuleV { register: "MSTPCRB"@, base_bit: 6, direction: BitDir::Plus })
    } else {
        None
    }
}

#[verifier::rlimit(50)]
fn mstp_part1(t: &str) -> (r: Option<MstpRule>)
    ensures
        match r {
            Some(rule) => spec_mstp_part1(t@) == Some(rule@),
            None => spec_mstp_part1(t@) is None,
        },
{
    if str_eq(t, "SCI") {
        Some(MstpRule::new("MSTPCRB", 31, BitDir::Minus))
    } else if str_eq(t, "SPI") {
        Some(MstpRule::new("MSTPCRB", 19, BitDir::Minus))
    } else if str_eq(t, "IIC") {
        Some(MstpRule::new("MSTPCRB", 9, BitDir::Minus))
    } else if str_eq(t, "RIIC") {
        Some(MstpRule::new("MSTPCRB", 9, BitDir::Minus))
    } else if str_eq(t, "CAN") {
        Some(MstpRule::new("MSTPCRB", 2, BitDir::Minus))
    } else if str_eq(t, "CEC") {
        Some(MstpRule::new("MSTPCRB", 3, BitDir::Fixed))
    } else if str_eq(t, "IRDA") {
        Some(MstpRule::new("MSTPCRB", 5, BitDir::Minus))
    } else if str_eq(t, "QSPI") {
        Some(MstpRule::new("MSTPCRB", 6, BitDir::Minus))
    } else if str_eq(t, "SAU") {
        Some(MstpRule::new("MSTPCRB", 6, BitDir::Plus))
    } else {
        None
    }
}

/// Rules IICA through EDMAC of the table.
pub open spec fn spec_mstp_part2(t: Seq<char>) -> Option<MstpRuleV> {
    if t == "IICA"@ {
        Some(MstpRuleV { register: "MSTPCRB"@, base_bit: 10, direction: BitDir::Plus })
    } else if t == "USBFS"@ {
        Some(MstpRuleV { register: "MSTPCRB"@, base_bit: 11, direction: BitDir::Minus })
    } else if t == "USB"@ {
        Some(MstpRuleV { register: "MSTPCRB"@, base_bit: 11, direction: BitDir::Minus })
    } else if t == "USBHS"@ {
        Some(MstpRuleV { register: "MSTPCRB"@, base_bit: 12, direction: BitDir::Minus })
    } else if t == "EPTPC"@ {
        Some(MstpRuleV { register: "MSTPCRB"@, base_bit: 13, direction: BitDir::Minus })
    } else if t == "USBCC"@ {
        Some(MstpRuleV { register: "MSTPCRB"@, base_bit: 14, direction: BitDir::Fixed })
    } else if t == "ETHER"@ {
        Some(MstpRuleV { register: "MSTPCRB"@, base_bit: 15, direction: BitDir::Minus })
    } else if t == "ETHERC"@ {
        Some(MstpRuleV { register: "MSTPCRB"@, base_bit: 15, direction: BitDir::Minus })
    } else if t == "EDMAC"@ {
        Some(MstpRuleV { register: "MSTPCRB"@, base_bit: 15, direction: BitDir::Minus })
    } else {
        None
    }
}

#[verifier::rlimit(50)]
fn mstp_part2(t: &str) -> (r: Option<MstpRule>)
    ensures
        match r {
            Some(rule) => spec_mstp_part2(t@) == Some(rule@),
            None => spec_mstp_part2(t@) is None,
        },
{
    if str_eq(t, "IICA") {
        Some(MstpRule::new("MSTPCRB", 10, BitDir::Plus))
    } else if str_eq(t, "USBFS") {
        Some(MstpRule::new("MSTPCRB", 11, BitDir::Minus))
    } else if str_eq(t, "USB") {
        Some(MstpRule::new("MSTPCRB", 11, BitDir::Minus))
    } else if str_eq(t, "USBHS") {
        Some(MstpRule::new("MSTPCRB", 12, BitDir::Minus))
    } else if str_eq(t, "EPTPC") {
        Some(MstpRule::new("MSTPCRB", 13, BitDir::Minus))
    } else if str_eq(t, "USBCC") {
        Some(MstpRule::new("MSTPCRB", 14, BitDir::Fixed))
    } else if str_eq(t, "ETHER") {
        Some(MstpRule::new("MSTPCRB", 15, BitDir::Minus))
    } else if str_eq(t, "ETHERC") {
        Some(MstpRule::new("MSTPCRB", 15, BitDir::Minus))
    } else if str_eq(t, "EDMAC") {
        Some(MstpRule::new("MSTPCRB", 15, BitDir::Minus))
    } else {
        None
    }
}

/// Rules OSPI through JPEG of the table.
pub open spec fn spec_mstp_part3(t: Seq<char>) -> Option<MstpRuleV> {
    if t == "OSPI"@ {
        Some(MstpRuleV { register: "MSTPCRB"@, base_bit: 16, direction: BitDir::Plus })
    } else if t == "CAC"@ {
        Some(MstpRuleV { register: "MSTPCRC"@, base_bit: 0, direction: BitDir::Fixed })
    } else if t == "CRC"@ {
        Some(MstpRuleV { register: "MSTPCRC"@, base_bit: 1, direction: BitDir::Minus })
    } else if t == "PDC"@ {
        Some(MstpRuleV { register: "MSTPCRC"@, base_bit: 2, direction: BitDir::Minus })
    } else if t == "CTSU"@ {
        Some(MstpRuleV { register: "MSTPCRC"@, base_bit: 3, direction: BitDir::Minus })
    } else if t == "SLCDC"@ {
        Some(MstpRuleV { register: "MSTPCRC"@, base_bit: 4, direction: BitDir::Minus })
    } else if t == "GLCDC"@ {
        Some(MstpRuleV { register: "MSTPCRC"@, base_bit: 4, direction: BitDir::Minus })
    } else if t == "LCDC"@ {
        Some(MstpRuleV { register: "MSTPCRC"@, base_bit: 4, direction: BitDir::Minus })
    } else if t == "JPEG"@ {
        Some(MstpRuleV { register: "MSTPCRC"@, base_bit: 5, direction: BitDir::Minus })
    } else {
        None
    }
}

#[verifier::rlimit(50)]
fn mstp_part3(t: &str) -> (r: Option<MstpRule>)
    ensures
        match r {
            Some(rule) => spec_mstp_part3(t@) == Some(rule@),
            None => spec_mstp_part3(t@) is None,
        },
{
    if str_eq(t, "OSPI") {
        Some(MstpRule::new("MSTPCRB", 16, BitDir::Plus))
    } else if str_eq(t, "CAC") {
        Some(MstpRule::new("MSTPCRC", 0, BitDir::Fixed))
    } else if str_eq(t, "CRC") {
        Some(MstpRule::new("MSTPCRC", 1, BitDir::Minus))
    } else if str_eq(t, "PDC") {
        Some(MstpRule::new("MSTPCRC", 2, BitDir::Minus))
    } else if str_eq(t, "CTSU") {
        Some(MstpRule::new("MSTPCRC", 3, BitDir::Minus))
    } else if str_eq(t, "SLCDC") {
        Some(MstpRule::new("MSTPCRC", 4, BitDir::Minus))
    } else if str_eq(t, "GLCDC") {
        Some(MstpRule::new("MSTPCRC", 4, BitDir::Minus))
    } else if str_eq(t, "LCDC") {
        Some(MstpRule::new("MSTPCRC", 4, BitDir::Minus))
    } else if str_eq(t, "JPEG") {
        Some(MstpRule::new("MSTPCRC", 5, BitDir::Minus))
    } else {
        None
    }
}

/// Rules DRW through ELC of the table.
pub open spec fn spec_mstp_part4(t: Seq<char>) -> Option<MstpRuleV> {
    if t == "DRW"@ {
        Some(MstpRuleV { register: "MSTPCRC"@, base_bit: 6, direction: BitDir::Minus })
    } else if t == "SSI"@ {
        Some(MstpRuleV { register: "MSTPCRC"@, base_bit: 8, direction: BitDir::Minus })
    } else if t == "SSIE"@ {
        Some(MstpRuleV { register: "MSTPCRC"@, base_bit: 8, direction: BitDir::Minus })
    } else if t == "SRC"@ {
        Some(MstpRuleV { register: "MSTPCRC"@, base_bit: 9, direction: BitDir::Minus })
    } else if t == "MIPI_DSI"@ {
        Some(MstpRuleV { register: "MSTPCRC"@, base_bit: 10, direction: BitDir::Minus })
    } else if t == "SDHIMMC"@ {
        Some(MstpRuleV { register: "MSTPCRC"@, base_bit: 12, direction: BitDir::Minus })
    } else if t == "SDHI"@ {
        Some(MstpRuleV { register: "MSTPCRC"@, base_bit: 12, direction: BitDir::Minus })
    } else if t == "DOC"@ {
        Some(MstpRuleV { register: "MSTPCRC"@, base_bit: 13, direction: BitDir::Minus })
    } else if t == "ELC"@ {
        Some(MstpRuleV { register: "MSTPCRC"@, base_bit: 14, direction: BitDir::Minus })
    } else {
        None
    }
}

#[verifier::rlimit(50)]
fn mstp_part4(t: &str) -> (r: Option<MstpRule>)
    ensures
        match r {
            Some(rule) => spec_mstp_part4(t@) == Some(rule@),
            None => spec_mstp_part4(t@) is None,
        },
{
    if str_eq(t, "DRW") {
        Some(MstpRule::new("MSTPCRC", 6, BitDir::Minus))
    } else if str_eq(t, "SSI") {
        Some(MstpRule::new("MSTPCRC", 8, BitDir::Minus))
    } else if str_eq(t, "SSIE") {
        Some(MstpRule::new("MSTPCRC", 8, BitDir::Minus))
    } else if str_eq(t, "SRC") {
        Some(MstpRule::new("MSTPCRC", 9, BitDir::Minus))
    } else if str_eq(t, "MIPI_DSI") {
        Some(MstpRule::new("MSTPCRC", 10, BitDir::Minus))
    } else if str_eq(t, "SDHIMMC") {
        Some(MstpRule::new("MSTPCRC", 12, BitDir::Minus))
    } else if str_eq(t, "SDHI") {
        Some(MstpRule::new("MSTPCRC", 12, BitDir::Minus))
    } else if str_eq(t, "DOC") {
        Some(MstpRule::new("MSTPCRC", 13, BitDir::Minus))
    } else if str_eq(t, "ELC") {
        Some(MstpRule::new("MSTPCRC", 14, BitDir::Minus))
    } else {
        None
    }
}

/// Rules MACL through SCE of the table.
pub open spec fn spec_mstp_part5(t: Seq<char>) -> Option<MstpRuleV> {
    if t == "MACL"@ {
        Some(MstpRuleV { register: "MSTPCRC"@, base_bit: 15, direction: BitDir::Minus })
    } else if t == "CEU"@ {
        Some(MstpRuleV { register: "MSTPCRC"@, base_bit: 16, direction: BitDir::Minus })
    } else if t == "MIPI_CSI"@ {
        Some(MstpRuleV { register: "MSTPCRC"@, base_bit: 17, direction: BitDir::Minus })
    } else if t == "TFU"@ {
        Some(MstpRuleV { register: "MSTPCRC"@, base_bit: 20, direction: BitDir::Minus })
    } else if t == "IIRFA"@ {
        Some(MstpRuleV { register: "MSTPCRC"@, base_bit: 21, direction: BitDir::Minus })
    } else if t == "PDM"@ {
        Some(MstpRuleV { register: "MSTPCRC"@, base_bit: 24, direction: BitDir::Fixed })
    } else if t == "CANFD"@ {
        Some(MstpRuleV { register: "MSTPCRC"@, base_bit: 27, direction: BitDir::Minus })
    } else if t == "TRNG"@ {
        Some(MstpRuleV { register: "MSTPCRC"@, base_bit: 28, direction: BitDir::Minus })
    } else if t == "SCE"@ {
        Some(MstpRuleV { register: "MSTPCRC"@, base_bit: 31, direction: BitDir::Minus })
    } else {
        None
    }
}

#[verifier::rlimit(50)]
fn mstp_part5(t: &str) -> (r: Option<MstpRule>)
    ensures
        match r {
            Some(rule) => spec_mstp_part5(t@) == Some(rule@),
            None => spec_mstp_part5(t@) is None,
        },
{
    if str_eq(t, "MACL") {
        Some(MstpRule::new("MSTPCRC", 15, BitDir::Minus))
    } else if str_eq(t, "CEU") {
        Some(MstpRule::new("MSTPCRC", 16, BitDir::Minus))
    } else if str_eq(t, "MIPI_CSI") {
        Some(MstpRule::new("MSTPCRC", 17, BitDir::Minus))
    } else if str_eq(t, "TFU") {
        Some(MstpRule::new("MSTPCRC", 20, BitDir::Minus))
    } else if str_eq(t, "IIRFA") {
        Some(MstpRule::new("MSTPCRC", 21, BitDir::Minus))
    } else if str_eq(t, "PDM") {
        Some(MstpRule::new("MSTPCRC", 24, BitDir::Fixed))
    } else if str_eq(t, "CANFD") {
        Some(MstpRule::new("MSTPCRC", 27, BitDir::Minus))
    } else if str_eq(t, "TRNG") {
        Some(MstpRule::new("MSTPCRC", 28, BitDir::Minus))
    } else if str_eq(t, "SCE") {
        Some(MstpRule::new("MSTPCRC", 31, BitDir::Minus))
    } else {
        None
    }
}

/// Rules AES through ADC of the table.
pub open spec fn spec_mstp_part6(t: Seq<char>) -> Option<MstpRuleV> {
    if t == "AES"@ {
        Some(MstpRuleV { register: "MSTPCRC"@, base_bit: 31, direction: BitDir::Minus })
    } else if t == "TAU"@ {
        Some(MstpRuleV { register: "MSTPCRD"@, base_bit: 0, direction: BitDir::Fixed })
    } else if t == "AGT"@ {
        Some(MstpRuleV { register: "MSTPCRD"@, base_bit: 3, direction: BitDir::Minus })
    } else if t == "AGTW"@ {
        Some(MstpRuleV { register: "MSTPCRD"@, base_bit: 3, direction: BitDir::Minus })
    } else if t == "TML"@ {
        Some(MstpRuleV { register: "MSTPCRD"@, base_bit: 4, direction: BitDir::Fixed })
    } else if t == "GPT"@ {
        Some(MstpRuleV { register: "MSTPCRD"@, base_bit: 6, direction: BitDir::Fixed })
    } else if t == "DSMIF"@ {
        Some(MstpRuleV { register: "MSTPCRD"@, base_bit: 9, direction: BitDir::Minus })
    } else if t == "POEG"@ {
        Some(MstpRuleV { register: "MSTPCRD"@, base_bit: 14, direction: BitDir::Minus })
    } else if t == "ADC"@ {
        Some(MstpRuleV { register: "MSTPCRD"@, base_bit: 16, direction: BitDir::Minus })
    } else {
        None
    }
}

#[verifier::rlimit(50)]
fn mstp_part6(t: &str) -> (r: Option<MstpRule>)
    ensures
        match r {
            Some(rule) => spec_mstp_part6(t@) == Some(rule@),
            None => spec_mstp_part6(t@) is None,
        },
{
    if str_eq(t, "AES") {
        Some(MstpRule::new("MSTPCRC", 31, BitDir::Minus))
    } else if str_eq(t, "TAU") {
        Some(MstpRule::new("MSTPCRD", 0, BitDir::Fixed))
    } else if str_eq(t, "AGT") {
        Some(MstpRule::new("MSTPCRD", 3, BitDir::Minus))
    } else if str_eq(t, "AGTW") {
        Some(MstpRule::new("MSTPCRD", 3, BitDir::Minus))
    } else if str_eq(t, "TML") {
        Some(MstpRule::new("MSTPCRD", 4, BitDir::Fixed))
    } else if str_eq(t, "GPT") {
        Some(MstpRule::new("MSTPCRD", 6, BitDir::Fixed))
    } else if str_eq(t, "DSMIF") {
        Some(MstpRule::new("MSTPCRD", 9, BitDir::Minus))
    } else if str_eq(t, "POEG") {
        Some(MstpRule::new("MSTPCRD", 14, BitDir::Minus))
    } else if str_eq(t, "ADC") {
        Some(MstpRule::new("MSTPCRD", 16, BitDir::Minus))
    } else {
        None
    }
}

/// Rules ADC12 through RTC of the table.
pub open spec fn spec_mstp_part7(t: Seq<char>) -> Option<MstpRuleV> {
    if t == "ADC12"@ {
        Some(MstpRuleV { register: "MSTPCRD"@, base_bit: 16, direction: BitDir::Minus })
    } else if t == "ADC14"@ {
        Some(MstpRuleV { register: "MSTPCRD"@, base_bit: 16, direction: BitDir::Minus })
    } else if t == "ADC140"@ {
        Some(MstpRuleV { register: "MSTPCRD"@, base_bit: 16, direction: BitDir::Fixed })
    } else if t == "SDADC"@ {
        Some(MstpRuleV { register: "MSTPCRD"@, base_bit: 17, direction: BitDir::Minus })
    } else if t == "DAC"@ {
        Some(MstpRuleV { register: "MSTPCRD"@, base_bit: 20, direction: BitDir::Minus })
    } else if t == "DAC12"@ {
        Some(MstpRuleV { register: "MSTPCRD"@, base_bit: 20, direction: BitDir::Fixed })
    } else if t == "DAC8"@ {
        Some(MstpRuleV { register: "MSTPCRD"@, base_bit: 19, direction: BitDir::Fixed })
    } else if t == "TSN"@ {
        Some(MstpRuleV { register: "MSTPCRD"@, base_bit: 22, direction: BitDir::Minus })
    } else if t == "RTC"@ {
        Some(MstpRuleV { register: "MSTPCRD"@, base_bit: 23, direction: BitDir::Fixed })
    } else {
        None
    }
}

#[verifier::rlimit(50)]
fn mstp_part7(t: &str) -> (r: Option<MstpRule>)
    ensures
        match r {
            Some(rule) => spec_mstp_part7(t@) == Some(rule@),
            None => spec_mstp_part7(t@) is None,
        },
{
    if str_eq(t, "ADC12") {
        Some(MstpRule::new("MSTPCRD", 16, BitDir::Minus))
    } else if str_eq(t, "ADC14") {
        Some(MstpRule::new("MSTPCRD", 16, BitDir::Minus))
    } else if str_eq(t, "ADC140") {
        Some(MstpRule::new("MSTPCRD", 16, BitDir::Fixed))
    } else if str_eq(t, "SDADC") {
        Some(MstpRule::new("MSTPCRD", 17, BitDir::Minus))
    } else if str_eq(t, "DAC") {
        Some(MstpRule::new("MSTPCRD", 20, BitDir::Minus))
    } else if str_eq(t, "DAC12") {
        Some(MstpRule::new("MSTPCRD", 20, BitDir::Fixed))
    } else if str_eq(t, "DAC8") {
        Some(MstpRule::new("MSTPCRD", 19, BitDir::Fixed))
    } else if str_eq(t, "TSN") {
        Some(MstpRule::new("MSTPCRD", 22, BitDir::Minus))
    } else if str_eq(t, "RTC") {
        Some(MstpRule::new("MSTPCRD", 23, BitDir::Fixed))
    } else {
        None
    }
}

/// Rules ACMPHS through DTC of the table.
pub open spec fn spec_mstp_part8(t: Seq<char>) -> Option<MstpRuleV> {
    if t == "ACMPHS"@ {
        Some(MstpRuleV { register: "MSTPCRD"@, base_bit: 28, direction: BitDir::Minus })
    } else if t == "ACMPLP"@ {
        Some(MstpRuleV { register: "MSTPCRD"@, base_bit: 29, direction: BitDir::Fixed })
    } else if t == "OPAMP"@ {
        Some(MstpRuleV { register: "MSTPCRD"@, base_bit: 31, direction: BitDir::Minus })
    } else if t == "NPU"@ {
        Some(MstpRuleV { register: "MSTPCRA"@, base_bit: 16, direction: BitDir::Fixed })
    } else if t == "DMAC"@ {
        Some(MstpRuleV { register: "MSTPCRA"@, base_bit: 22, direction: BitDir::Fixed })
    } else if t == "DMA"@ {
        Some(MstpRuleV { register: "MSTPCRA"@, base_bit: 22, direction: BitDir::Fixed })
    } else if t == "DTC"@ {
        Some(MstpRuleV { register: "MSTPCRA"@, base_bit: 22, direction: BitDir::Fixed })
    } else {
        None
    }
}

#[verifier::rlimit(50)]
fn mstp_part8(t: &str) -> (r: Option<MstpRule>)
    ensures
        match r {
            Some(rule) => spec_mstp_part8(t@) == Some(rule@),
            None => spec_mstp_part8(t@) is None,
        },
{
    if str_eq(t, "ACMPHS") {
        Some(MstpRule::new("MSTPCRD", 28, BitDir::Minus))
    } else if str_eq(t, "ACMPLP") {
        Some(MstpRule::new("MSTPCRD", 29, BitDir::Fixed))
    } else if str_eq(t, "OPAMP") {
        Some(MstpRule::new("MSTPCRD", 31, BitDir::Minus))
    } else if str_eq(t, "NPU") {
        Some(MstpRule::new("MSTPCRA", 16, BitDir::Fixed))
    } else if str_eq(t, "DMAC") {
        Some(MstpRule::new("MSTPCRA", 22, BitDir::Fixed))
    } else if str_eq(t, "DMA") {
        Some(MstpRule::new("MSTPCRA", 22, BitDir::Fixed))
    } else if str_eq(t, "DTC") {
        Some(MstpRule::new("MSTPCRA", 22, BitDir::Fixed))
    } else {
        None
    }
}

/// The generic MSTP rule for a peripheral type, if the table has one.
///
/// Keys are distinct, so which part answers never overlaps; the parts are
/// simply the table read in order.
pub open spec fn spec_mstp_rule(t: Seq<char>) -> Option<MstpRuleV> {
    if spec_mstp_part1(t) is Some {
        spec_mstp_part1(t)
    } else if spec_mstp_part2(t) is Some {
        spec_mstp_part2(t)
    } else if spec_mstp_part3(t) is Some {
        spec_mstp_part3(t)
    } else if spec_mstp_part4(t) is Some {
        spec_mstp_part4(t)
    } else if spec_mstp_part5(t) is Some {
        spec_mstp_part5(t)
    } else if spec_mstp_part6(t) is Some {
        spec_mstp_part6(t)
    } else if spec_mstp_part7(t) is Some {
        spec_mstp_part7(t)
    } else if spec_mstp_part8(t) is Some {
        spec_mstp_part8(t)
    } else {
        None
    }
}

/// The rule the table holds for `t`: the executable twin of
/// [`spec_mstp_rule`].
pub fn mstp_rule_for(t: &str) -> (r: Option<MstpRule>)
    ensures
        match r {
            Some(rule) => spec_mstp_rule(t@) == Some(rule@),
            None => spec_mstp_rule(t@) is None,
        },
{
    if let Some(rule) = mstp_part1(t) {
        return Some(rule);
    }
    if let Some(rule) = mstp_part2(t) {
        return Some(rule);
    }
    if let Some(rule) = mstp_part3(t) {
        return Some(rule);
    }
    if let Some(rule) = mstp_part4(t) {
        return Some(rule);
    }
    if let Some(rule) = mstp_part5(t) {
        return Some(rule);
    }
    if let Some(rule) = mstp_part6(t) {
        return Some(rule);
    }
    if let Some(rule) = mstp_part7(t) {
        return Some(rule);
    }
    if let Some(rule) = mstp_part8(t) {
        return Some(rule);
    }
    None
}

/// GPT gating for the given family.
///
/// GPT has family-dependent rules: RA6T2 gates all channels with one fixed
/// bit, RA8 Gen2 lets channels 4 through 9 share channel 4's bit, RA6/RA8
/// walk down from bit 31, and everything else uses MSTPCRD bit 6.
pub open spec fn spec_gpt_mstp(channel: u32, family: RaFamily) -> Option<MstpInfoV> {
    match family {
        RaFamily::Ra6t2 => Some(MstpInfoV { register: "MSTPCRE"@, bit: 31 }),
        RaFamily::Ra8Gen2 => {
            let effective = if 4 <= channel && channel <= 9 {
                4u32
            } else {
                channel
            };
            Some(MstpInfoV { register: "MSTPCRE"@, bit: sat_sub(31, effective) })
        },
        RaFamily::Ra6 | RaFamily::Ra8 => Some(
            MstpInfoV { register: "MSTPCRE"@, bit: sat_sub(31, channel) },
        ),
        _ => Some(MstpInfoV { register: "MSTPCRD"@, bit: 6 }),
    }
}

/// Compute GPT MSTP info based on family.
pub fn compute_gpt_mstp(channel: u32, family: RaFamily) -> (r: Option<MstpInfo>)
    ensures
        match r {
            Some(i) => spec_gpt_mstp(channel, family) == Some(i@),
            None => spec_gpt_mstp(channel, family) is None,
        },
{
    match family {
        RaFamily::Ra6t2 => Some(MstpInfo { register: "MSTPCRE".to_owned(), bit: 31 }),
        RaFamily::Ra8Gen2 => {
            let effective = if 4 <= channel && channel <= 9 {
                4
            } else {
                channel
            };
            let bit = if effective <= 31 {
                31 - effective
            } else {
                0
            };
            Some(MstpInfo { register: "MSTPCRE".to_owned(), bit })
        },
        RaFamily::Ra6 | RaFamily::Ra8 => {
            let bit = if channel <= 31 {
                31 - channel
            } else {
                0
            };
            Some(MstpInfo { register: "MSTPCRE".to_owned(), bit })
        },
        _ => Some(MstpInfo { register: "MSTPCRD".to_owned(), bit: 6 }),
    }
}

/// AGT gating for the given family: RA8 Gen2 walks down from bit 5, every
/// other family from bit 3.
pub open spec fn spec_agt_mstp(channel: u32, family: RaFamily) -> Option<MstpInfoV> {
    match family {
        RaFamily::Ra8Gen2 => Some(MstpInfoV { register: "MSTPCRD"@, bit: sat_sub(5, channel) }),
        _ => Some(MstpInfoV { register: "MSTPCRD"@, bit: sat_sub(3, channel) }),
    }
}

/// Compute AGT MSTP info based on family.
pub fn compute_agt_mstp(channel: u32, family: RaFamily) -> (r: Option<MstpInfo>)
    ensures
        match r {
            Some(i) => spec_agt_mstp(channel, family) == Some(i@),
            None => spec_agt_mstp(channel, family) is None,
        },
{
    match family {
        RaFamily::Ra8Gen2 => {
            let bit = if channel <= 5 {
                5 - channel
            } else {
                0
            };
            Some(MstpInfo { register: "MSTPCRD".to_owned(), bit })
        },
        _ => {
            let bit = if channel <= 3 {
                3 - channel
            } else {
                0
            };
            Some(MstpInfo { register: "MSTPCRD".to_owned(), bit })
        },
    }
}

/// POEG gating for the given family: RA2 has a fixed bit 14, every other
/// family walks down from it.
pub open spec fn spec_poeg_mstp(channel: u32, family: RaFamily) -> Option<MstpInfoV> {
    match family {
        RaFamily::Ra2 => Some(MstpInfoV { register: "MSTPCRD"@, bit: 14 }),
        _ => Some(MstpInfoV { register: "MSTPCRD"@, bit: sat_sub(14, channel) }),
    }
}

/// Compute POEG MSTP info based on family.
pub fn compute_poeg_mstp(channel: u32, family: RaFamily) -> (r: Option<MstpInfo>)
    ensures
        match r {
            Some(i) => spec_poeg_mstp(channel, family) == Some(i@),
            None => spec_poeg_mstp(channel, family) is None,
        },
{
    match family {
        RaFamily::Ra2 => Some(MstpInfo { register: "MSTPCRD".to_owned(), bit: 14 }),
        _ => {
            let bit = if channel <= 14 {
                14 - channel
            } else {
                0
            };
            Some(MstpInfo { register: "MSTPCRD".to_owned(), bit })
        },
    }
}

/// The gating register and bit for a peripheral type and channel on the
/// given chip: the family-specific overrides first, the generic table
/// otherwise, and nothing when the type is unknown.
pub open spec fn spec_compute_mstp(t: Seq<char>, channel: u32, chip: Seq<char>) -> Option<
    MstpInfoV,
> {
    let family = spec_ra_family(chip);
    if t == "GPT"@ {
        spec_gpt_mstp(channel, family)
    } else if t == "AGT"@ || t == "AGTW"@ {
        spec_agt_mstp(channel, family)
    } else if t == "ADC"@ && family == RaFamily::Ra8Gen2 {
        Some(MstpInfoV { register: "MSTPCRD"@, bit: sat_sub(21, channel) })
    } else if t == "POEG"@ {
        spec_poeg_mstp(channel, family)
    } else {
        match spec_mstp_rule(t) {
            Some(r) => Some(
                MstpInfoV {
                    register: r.register,
                    bit: spec_compute_bit(r.direction, r.base_bit, channel),
                },
            ),
            None => None,
        }
    }
}

/// Compute MSTP info for a peripheral based on its type, channel, and chip
/// family.
pub fn compute_mstp(peri_type: &str, channel: u32, chip_name: &str) -> (r: Option<MstpInfo>)
    ensures
        match r {
            Some(i) => spec_compute_mstp(peri_type@, channel, chip_name@) == Some(i@),
            None => spec_compute_mstp(peri_type@, channel, chip_name@) is None,
        },
{
    let family = RaFamily::from_chip_name(chip_name);

    // Handle family-specific GPT rules
    if str_eq(peri_type, "GPT") {
        return compute_gpt_mstp(channel, family);
    }
    // Handle family-specific AGT rules
    if str_eq(peri_type, "AGT") || str_eq(peri_type, "AGTW") {
        return compute_agt_mstp(channel, family);
    }
    // Handle family-specific ADC rules for RA8 Gen2
    if str_eq(peri_type, "ADC") && family == RaFamily::Ra8Gen2 {
        let bit = if channel <= 21 {
            21 - channel
        } else {
            0
        };
        return Some(MstpInfo { register: "MSTPCRD".to_owned(), bit });
    }
    // Handle family-specific POEG rules
    if str_eq(peri_type, "POEG") {
        return compute_poeg_mstp(channel, family);
    }
    // Look up in the generic rules
    match mstp_rule_for(peri_type) {
        Some(rule) => Some(
            MstpInfo { register: rule.register.to_owned(), bit: rule.compute_bit(channel) },
        ),
        None => None,
    }
}

/// Wherever a `Minus`-direction rule of the table applies, the computed bit
/// saturates at zero: a channel past the base bit gives bit 0, never an
/// underflowed or wrapped value.  The `requires` names the types whose
/// family overrides answer instead of the table; the overrides saturate the
/// same way, which their contracts state through `sat_sub`.
pub proof fn lemma_minus_rule_saturates(t: Seq<char>, channel: u32, chip: Seq<char>)
    requires
        t != "GPT"@,
        t != "AGT"@,
        t != "AGTW"@,
        t != "POEG"@,
        !(t == "ADC"@ && spec_ra_family(chip) == RaFamily::Ra8Gen2),
    ensures
        match spec_mstp_rule(t) {
            Some(r) => r.direction is Minus ==> spec_compute_mstp(t, channel, chip) == Some(
                MstpInfoV {
                    register: r.register,
                    bit: if channel <= r.base_bit {
                        (r.base_bit - channel) as u32
                    } else {
                        0u32
                    },
                },
            ),
            None => true,
        },
{
}

/// Channel number encoded by a digit run, when its value fits a `u32`.
pub open spec fn chan_of(ds: Seq<char>) -> Option<u32> {
    if digits_val(ds) <= u32::MAX {
        Some(digits_val(ds) as u32)
    } else {
        None
    }
}

/// The GPT name form: `GPT`, then digits, where a leading `32`, `16` or `8`
/// with more digits after it is a bit-width infix, not part of the channel.
pub open spec fn gpt_applies(u: Seq<char>) -> bool {
    u.len() >= 4 && u.take(3) == seq!['G', 'P', 'T'] && digit_run(u, 3, u.len() as int)
}

/// The channel digits of a GPT name, with the bit-width infix stripped.
pub open spec fn gpt_channel_digits(u: Seq<char>) -> Seq<char> {
    let d = u.skip(3);
    if d.len() > 2 && (d.take(2) == seq!['3', '2'] || d.take(2) == seq!['1', '6']) {
        d.skip(2)
    } else if d.len() > 1 && d[0] == '8' {
        d.skip(1)
    } else {
        d
    }
}

/// The ADC name form: `ADC`, then either one channel digit alone or a
/// two-digit bit-width infix (14, 12, 16 or 24) and one channel digit.
pub open spec fn adc_applies(u: Seq<char>) -> bool {
    let d = u.skip(3);
    u.len() >= 4 && u.take(3) == seq!['A', 'D', 'C'] && digit_run(u, 3, u.len() as int) && (d.len()
        == 1 || (d.len() == 3 && (d.take(2) == seq!['1', '4'] || d.take(2) == seq!['1', '2']
        || d.take(2) == seq!['1', '6'] || d.take(2) == seq!['2', '4'])))
}

/// The channel digits of an ADC name, with the bit-width infix stripped.
pub open spec fn adc_channel_digits(u: Seq<char>) -> Seq<char> {
    let d = u.skip(3);
    if d.len() == 1 {
        d
    } else {
        d.skip(2)
    }
}

/// A maximal run of ASCII upper-case letters or underscores, then a
/// non-empty digit run to the end, split at position `m`.
pub open spec fn is_name_char(c: char) -> bool {
    is_upper(c) || c == '_'
}

pub open spec fn is_generic_split(u: Seq<char>, m: int) -> bool {
    1 <= m < u.len() && (forall|j: int| 0 <= j < m ==> is_name_char(#[trigger] u[j])) && digit_run(
        u,
        m,
        u.len() as int,
    )
}

pub open spec fn generic_applies(u: Seq<char>) -> bool {
    exists|m: int| is_generic_split(u, m)
}

/// Result of the generic `NAME` + digits form: known names map to their
/// canonical spelling, everything else keeps the original name and loses the
/// channel.
pub open spec fn generic_result(name: Seq<char>, u: Seq<char>) -> (Seq<char>, Option<u32>) {
    let m = choose|m: int| is_generic_split(u, m);
    match chan_of(u.skip(m)) {
        None => (name, None),
        Some(c) => if m == 3 && u[0] == 'S' && u[1] == 'C' && u[2] == 'I' {
            (seq!['S', 'C', 'I'], Some(c))
        } else if m == 3 && u[0] == 'S' && u[1] == 'P' && u[2] == 'I' {
            (seq!['S', 'P', 'I'], Some(c))
        } else if m == 3 && u[0] == 'I' && u[1] == 'I' && u[2] == 'C' {
            (seq!['I', 'I', 'C'], Some(c))
        } else if m == 3 && u[0] == 'C' && u[1] == 'A' && u[2] == 'N' {
            (seq!['C', 'A', 'N'], Some(c))
        } else if m == 3 && u[0] == 'A' && u[1] == 'G' && u[2] == 'T' {
            (seq!['A', 'G', 'T'], Some(c))
        } else if m == 4 && u[0] == 'A' && u[1] == 'G' && u[2] == 'T' && u[3] == 'W' {
            (seq!['A', 'G', 'T'], Some(c))
        } else if m == 3 && u[0] == 'G' && u[1] == 'P' && u[2] == 'T' {
            (seq!['G', 'P', 'T'], Some(c))
        } else if m == 3 && u[0] == 'A' && u[1] == 'D' && u[2] == 'C' {
            (seq!['A', 'D', 'C'], Some(c))
        } else if m == 3 && u[0] == 'D' && u[1] == 'A' && u[2] == 'C' {
            (seq!['D', 'A', 'C'], Some(c))
        } else if m == 3 && u[0] == 'S' && u[1] == 'S' && u[2] == 'I' {
            (seq!['S', 'S', 'I'], Some(c))
        } else if m == 4 && u[0] == 'D' && u[1] == 'M' && u[2] == 'A' && u[3] == 'C' {
            (seq!['D', 'M', 'A', 'C'], Some(c))
        } else if m == 4 && u[0] == 'P' && u[1] == 'O' && u[2] == 'E' && u[3] == 'G' {
            (seq!['P', 'O', 'E', 'G'], Some(c))
        } else if m == 5 && u[0] == 'C' && u[1] == 'A' && u[2] == 'N' && u[3] == 'F' && u[4]
            == 'D' {
            (seq!['C', 'A', 'N', 'F', 'D'], Some(c))
        } else if m == 4 && u[0] == 'S' && u[1] == 'D' && u[2] == 'H' && u[3] == 'I' {
            (seq!['S', 'D', 'H', 'I'], Some(c))
        } else if m == 6 && u[0] == 'A' && u[1] == 'C' && u[2] == 'M' && u[3] == 'P' && u[4] == 'H'
            && u[5] == 'S' {
            (seq!['A', 'C', 'M', 'P', 'H', 'S'], Some(c))
        } else if m == 5 && u[0] == 'D' && u[1] == 'S' && u[2] == 'M' && u[3] == 'I' && u[4]
            == 'F' {
            (seq!['D', 'S', 'M', 'I', 'F'], Some(c))
        } else if m == 4 && u[0] == 'U' && u[1] == 'L' && u[2] == 'P' && u[3] == 'T' {
            (seq!['U', 'L', 'P', 'T'], Some(c))
        } else {
            // PORT and every unlisted name: no module-stop channel
            (name, None)
        },
    }
}

/// The channel read from a digit run: the canonical base with the channel,
/// or — when the value does not fit a `u32` — the original name with none.
pub open spec fn overflow_to_none(name: Seq<char>, base: Seq<char>, ds: Seq<char>) -> (
    Seq<char>,
    Option<u32>,
) {
    match chan_of(ds) {
        Some(c) => (base, Some(c)),
        None => (name, None),
    }
}

/// Decomposition of a raw peripheral instance name into its base type and
/// channel, upper-cased and with the vendor's aliases folded:
///
/// - `"SCI0"` -> `("SCI", Some(0))`
/// - `"GPT320"` -> `("GPT", Some(0))` (32-bit GPT, channel 0)
/// - `"GPT162"` -> `("GPT", Some(2))` (16-bit GPT, channel 2)
/// - `"ADC140"` -> `("ADC", Some(0))` (14-bit ADC, channel 0)
/// - `"SSIE0"` -> `("SSI", Some(0))` (SSI Extended, channel 0)
/// - `"DAC12"` -> `("DAC", Some(0))` (12-bit DAC)
/// - `"DAC8"` -> `("DAC8", None)` (8-bit DAC, a peripheral of its own)
/// - `"RTC"` -> `("RTC", None)`
pub open spec fn spec_parse_peripheral_name(name: Seq<char>) -> (Seq<char>, Option<u32>) {
    let u = upper(name);
    if gpt_applies(u) {
        overflow_to_none(name, seq!['G', 'P', 'T'], gpt_channel_digits(u))
    } else if adc_applies(u) {
        overflow_to_none(name, seq!['A', 'D', 'C'], adc_channel_digits(u))
    } else if u.len() >= 5 && u.take(4) == seq!['S', 'S', 'I', 'E'] && digit_run(
        u,
        4,
        u.len() as int,
    ) {
        overflow_to_none(name, seq!['S', 'S', 'I'], u.skip(4))
    } else if u.len() >= 4 && u.take(3) == seq!['S', 'S', 'I'] && digit_run(u, 3, u.len() as int) {
        overflow_to_none(name, seq!['S', 'S', 'I'], u.skip(3))
    } else if u == seq!['D', 'A', 'C', '1', '2'] {
        (seq!['D', 'A', 'C'], Some(0u32))
    } else if u == seq!['D', 'A', 'C', '8'] {
        (seq!['D', 'A', 'C', '8'], None)
    } else if u.len() >= 5 && u.take(4) == seq!['R', 'I', 'I', 'C'] && digit_run(
        u,
        4,
        u.len() as int,
    ) {
        overflow_to_none(name, seq!['I', 'I', 'C'], u.skip(4))
    } else if starts_with(u, seq!['E', 'T', 'H', 'E', 'R', 'C']) || starts_with(
        u,
        seq!['E', 'D', 'M', 'A', 'C'],
    ) {
        let k = trailing_digits(u);
        if k >= 1 {
            match chan_of(u.skip(u.len() - k)) {
                Some(c) => (seq!['E', 'T', 'H', 'E', 'R'], Some(c)),
                None => (seq!['E', 'T', 'H', 'E', 'R'], Some(0u32)),
            }
        } else {
            (seq!['E', 'T', 'H', 'E', 'R'], Some(0u32))
        }
    } else if generic_applies(u) {
        generic_result(name, u)
    } else {
        (name, None)
    }
}

/// Parse a raw peripheral instance name into its base type and channel.
///
/// Returns the canonical base spelling for the recognized forms and the
/// original name with no channel for everything else; it never fails.
#[verifier::loop_isolation(false)]
#[verifier::rlimit(100)]
pub fn parse_peripheral_name<'a>(name: &'a str) -> (r: (&'a str, Option<u32>))
    ensures
        r.0@ == spec_parse_peripheral_name(name@).0,
        r.1 == spec_parse_peripheral_name(name@).1,
{
    let up = upper_chars(name);
    let ghost u = upper(name@);
    let n = up.len();

    // GPT naming: GPT320, GPT321, GPT162, GPT163, etc.
    if n >= 4 && up[0] == 'G' && up[1] == 'P' && up[2] == 'T' && all_digits(&up, 3, n) {
        proof {
            assert(u.take(3) =~= seq!['G', 'P', 'T']);
            reveal_strlit("GPT");
            assert("GPT"@ =~= seq!['G', 'P', 'T']);
        }
        let ds: usize = if n > 5 && ((up[3] == '3' && up[4] == '2') || (up[3] == '1' && up[4]
            == '6')) {
            5
        } else if n > 4 && up[3] == '8' {
            4
        } else {
            3
        };
        proof {
            let d = u.skip(3);
            if n > 5 {
                assert(d.take(2) =~= seq![u[3], u[4]]);
                assert(d.skip(2) =~= u.skip(5));
            }
            if n > 4 {
                assert(d.skip(1) =~= u.skip(4));
            }
            assert(gpt_channel_digits(u) == u.skip(ds as int));
            assert(u.skip(ds as int) =~= u.subrange(ds as int, n as int));
        }
        match parse_digits(&up, ds, n) {
            Some(c) => {
                return ("GPT", Some(c));
            },
            None => {
                return (name, None);
            },
        }
    }
    // ADC naming: ADC140, ADC141, ADC120, etc.
    let adc_form = n >= 4 && up[0] == 'A' && up[1] == 'D' && up[2] == 'C' && all_digits(&up, 3, n);
    let adc_pair = n == 6 && ((up[3] == '1' && (up[4] == '4' || up[4] == '2' || up[4] == '6')) || (
    up[3] == '2' && up[4] == '4'));
    proof {
        if n >= 4 && up@[0] == 'A' && up@[1] == 'D' && up@[2] == 'C' {
            assert(u.take(3) =~= seq!['A', 'D', 'C']);
        }
        if n >= 6 {
            assert(u.skip(3).take(2) =~= seq![u[3], u[4]]);
        }
    }
    if adc_form && (n == 4 || adc_pair) {
        proof {
            assert(adc_applies(u));
            reveal_strlit("ADC");
            assert("ADC"@ =~= seq!['A', 'D', 'C']);
        }
        let ds: usize = if n == 4 {
            3
        } else {
            5
        };
        proof {
            assert(adc_channel_digits(u) == u.skip(ds as int));
            assert(u.skip(ds as int) =~= u.subrange(ds as int, n as int));
        }
        match parse_digits(&up, ds, n) {
            Some(c) => {
                return ("ADC", Some(c));
            },
            None => {
                return (name, None);
            },
        }
    }
    proof {
        if adc_form {
            let d = u.skip(3);
            assert(d.len() == 1 <==> n == 4);
            if n == 6 {
                assert(d.take(2) =~= seq![u[3], u[4]]);
            }
            assert(!adc_applies(u));
        }
    }
    // SSI / SSIE naming
    if n >= 5 && up[0] == 'S' && up[1] == 'S' && up[2] == 'I' && up[3] == 'E' && all_digits(
        &up,
        4,
        n,
    ) {
        proof {
            assert(u.take(4) =~= seq!['S', 'S', 'I', 'E']);
            reveal_strlit("SSI");
            assert("SSI"@ =~= seq!['S', 'S', 'I']);
            assert(u.skip(4) =~= u.subrange(4, n as int));
        }
        match parse_digits(&up, 4, n) {
            Some(c) => {
                return ("SSI", Some(c));
            },
            None => {
                return (name, None);
            },
        }
    }
    if n >= 4 && up[0] == 'S' && up[1] == 'S' && up[2] == 'I' && all_digits(&up, 3, n) {
        proof {
            assert(u.take(3) =~= seq!['S', 'S', 'I']);
            reveal_strlit("SSI");
            assert("SSI"@ =~= seq!['S', 'S', 'I']);
            assert(u.skip(3) =~= u.subrange(3, n as int));
        }
        match parse_digits(&up, 3, n) {
            Some(c) => {
                return ("SSI", Some(c));
            },
            None => {
                return (name, None);
            },
        }
    }
    // DAC naming: DAC12 and DAC8 are bit widths, not channels
    if n == 5 && up[0] == 'D' && up[1] == 'A' && up[2] == 'C' && up[3] == '1' && up[4] == '2' {
        proof {
            assert(u =~= seq!['D', 'A', 'C', '1', '2']);
            reveal_strlit("DAC");
            assert("DAC"@ =~= seq!['D', 'A', 'C']);
        }
        return ("DAC", Some(0));
    }
    if n == 4 && up[0] == 'D' && up[1] == 'A' && up[2] == 'C' && up[3] == '8' {
        proof {
            assert(u =~= seq!['D', 'A', 'C', '8']);
            reveal_strlit("DAC8");
            assert("DAC8"@ =~= seq!['D', 'A', 'C', '8']);
        }
        return ("DAC8", None);
    }
    // RIIC is an alias for IIC
    if n >= 5 && up[0] == 'R' && up[1] == 'I' && up[2] == 'I' && up[3] == 'C' && all_digits(
        &up,
        4,
        n,
    ) {
        proof {
            assert(u.take(4) =~= seq!['R', 'I', 'I', 'C']);
            reveal_strlit("IIC");
            assert("IIC"@ =~= seq!['I', 'I', 'C']);
            assert(u.skip(4) =~= u.subrange(4, n as int));
        }
        match parse_digits(&up, 4, n) {
            Some(c) => {
                return ("IIC", Some(c));
            },
            None => {
                return (name, None);
            },
        }
    }
    // ETHERC / EDMAC are aliases for ETHER
    let etherc = n >= 6 && up[0] == 'E' && up[1] == 'T' && up[2] == 'H' && up[3] == 'E' && up[4]
        == 'R' && up[5] == 'C';
    let edmac = n >= 5 && up[0] == 'E' && up[1] == 'D' && up[2] == 'M' && up[3] == 'A' && up[4]
        == 'C';
    proof {
        if n >= 6 {
            assert(u.take(6) =~= seq![u[0], u[1], u[2], u[3], u[4], u[5]]);
        }
        if n >= 5 {
            assert(u.take(5) =~= seq![u[0], u[1], u[2], u[3], u[4]]);
        }
    }
    if etherc || edmac {
        proof {
            reveal_strlit("ETHER");
            assert("ETHER"@ =~= seq!['E', 'T', 'H', 'E', 'R']);
            lemma_trailing_digits(u);
        }
        let k = count_trailing_digits(&up);
        if k >= 1 {
            proof {
                assert(u.skip(n - k) =~= u.subrange(n - k, n as int));
            }
            match parse_digits(&up, n - k, n) {
                Some(c) => {
                    return ("ETHER", Some(c));
                },
                None => {
                    return ("ETHER", Some(0));
                },
            }
        }
        return ("ETHER", Some(0));
    }
    // Generic form: a name, then the channel digits
    let mut q: usize = 0;
    while q < n && (('A' <= up[q] && up[q] <= 'Z') || up[q] == '_')
        invariant
            q <= n,
            forall|j: int| 0 <= j < q ==> is_name_char(#[trigger] u[j]),
        decreases n - q,
    {
        q = q + 1;
    }
    if 1 <= q && q < n && all_digits(&up, q, n) {
        proof {
            assert(is_generic_split(u, q as int));
            let m2 = choose|m: int| is_generic_split(u, m);
            assert(is_generic_split(u, m2));
            if m2 < q {
                assert(is_digit(u[m2]));
                assert(is_name_char(u[m2]));
                assert(false);
            }
            if m2 > q {
                assert(is_name_char(u[q as int]));
                assert(false);
            }
            assert(m2 == q);
            assert(u.skip(q as int) =~= u.subrange(q as int, n as int));
        }
        match parse_digits(&up, q, n) {
            None => {
                return (name, None);
            },
            Some(c) => {
                if q == 3 && up[0] == 'S' && up[1] == 'C' && up[2] == 'I' {
                    proof {
                        reveal_strlit("SCI");
                        assert("SCI"@ =~= seq!['S', 'C', 'I']);
                    }
                    return ("SCI", Some(c));
                }
                if q == 3 && up[0] == 'S' && up[1] == 'P' && up[2] == 'I' {
                    proof {
                        reveal_strlit("SPI");
                        assert("SPI"@ =~= seq!['S', 'P', 'I']);
                    }
                    return ("SPI", Some(c));
                }
                if q == 3 && up[0] == 'I' && up[1] == 'I' && up[2] == 'C' {
                    proof {
                        reveal_strlit("IIC");
                        assert("IIC"@ =~= seq!['I', 'I', 'C']);
                    }
                    return ("IIC", Some(c));
                }
                if q == 3 && up[0] == 'C' && up[1] == 'A' && up[2] == 'N' {
                    proof {
                        reveal_strlit("CAN");
                        assert("CAN"@ =~= seq!['C', 'A', 'N']);
                    }
                    return ("CAN", Some(c));
                }
                if q == 3 && up[0] == 'A' && up[1] == 'G' && up[2] == 'T' {
                    proof {
                        reveal_strlit("AGT");
                        assert("AGT"@ =~= seq!['A', 'G', 'T']);
                    }
                    return ("AGT", Some(c));
                }
                if q == 4 && up[0] == 'A' && up[1] == 'G' && up[2] == 'T' && up[3] == 'W' {
                    proof {
                        reveal_strlit("AGT");
                        assert("AGT"@ =~= seq!['A', 'G', 'T']);
                    }
                    return ("AGT", Some(c));
                }
                if q == 3 && up[0] == 'G' && up[1] == 'P' && up[2] == 'T' {
                    proof {
                        reveal_strlit("GPT");
                        assert("GPT"@ =~= seq!['G', 'P', 'T']);
                    }
                    return ("GPT", Some(c));
                }
                if q == 3 && up[0] == 'A' && up[1] == 'D' && up[2] == 'C' {
                    proof {
                        reveal_strlit("ADC");
                        assert("ADC"@ =~= seq!['A', 'D', 'C']);
                    }
                    return ("ADC", Some(c));
                }
                if q == 3 && up[0] == 'D' && up[1] == 'A' && up[2] == 'C' {
                    proof {
                        reveal_strlit("DAC");
                        assert("DAC"@ =~= seq!['D', 'A', 'C']);
                    }
                    return ("DAC", Some(c));
                }
                if q == 3 && up[0] == 'S' && up[1] == 'S' && up[2] == 'I' {
                    proof {
                        reveal_strlit("SSI");
                        assert("SSI"@ =~= seq!['S', 'S', 'I']);
                    }
                    return ("SSI", Some(c));
                }
                if q == 4 && up[0] == 'D' && up[1] == 'M' && up[2] == 'A' && up[3] == 'C' {
                    proof {
                        reveal_strlit("DMAC");
                        assert("DMAC"@ =~= seq!['D', 'M', 'A', 'C']);
                    }
                    return ("DMAC", Some(c));
                }
                if q == 4 && up[0] == 'P' && up[1] == 'O' && up[2] == 'E' && up[3] == 'G' {
                    proof {
                        reveal_strlit("POEG");
                        assert("POEG"@ =~= seq!['P', 'O', 'E', 'G']);
                    }
                    return ("POEG", Some(c));
                }
                if q == 5 && up[0] == 'C' && up[1] == 'A' && up[2] == 'N' && up[3] == 'F' && up[4]
                    == 'D' {
                    proof {
                        reveal_strlit("CANFD");
                        assert("CANFD"@ =~= seq!['C', 'A', 'N', 'F', 'D']);
                    }
                    return ("CANFD", Some(c));
                }
                if q == 4 && up[0] == 'S' && up[1] == 'D' && up[2] == 'H' && up[3] == 'I' {
                    proof {
                        reveal_strlit("SDHI");
                        assert("SDHI"@ =~= seq!['S', 'D', 'H', 'I']);
                    }
                    return ("SDHI", Some(c));
                }
                if q == 6 && up[0] == 'A' && up[1] == 'C' && up[2] == 'M' && up[3] == 'P' && up[4]
                    == 'H' && up[5] == 'S' {
                    proof {
                        reveal_strlit("ACMPHS");
                        assert("ACMPHS"@ =~= seq!['A', 'C', 'M', 'P', 'H', 'S']);
                    }
                    return ("ACMPHS", Some(c));
                }
                if q == 5 && up[0] == 'D' && up[1] == 'S' && up[2] == 'M' && up[3] == 'I' && up[4]
                    == 'F' {
                    proof {
                        reveal_strlit("DSMIF");
                        assert("DSMIF"@ =~= seq!['D', 'S', 'M', 'I', 'F']);
                    }
                    return ("DSMIF", Some(c));
                }
                if q == 4 && up[0] == 'U' && up[1] == 'L' && up[2] == 'P' && up[3] == 'T' {
                    proof {
                        reveal_strlit("ULPT");
                        assert("ULPT"@ =~= seq!['U', 'L', 'P', 'T']);
                    }
                    return ("ULPT", Some(c));
                }
                // PORT and every unlisted name: no module-stop channel
                proof {
                    assert(!gpt_applies(u));
                    assert(!adc_applies(u));
                    assert(!(u.len() >= 5 && u.take(4) == seq!['S', 'S', 'I', 'E'] && digit_run(
                        u,
                        4,
                        u.len() as int,
                    )));
                    assert(!(u.len() >= 4 && u.take(3) == seq!['S', 'S', 'I'] && digit_run(
                        u,
                        3,
                        u.len() as int,
                    )));
                    assert(u != seq!['D', 'A', 'C', '1', '2']);
                    assert(u != seq!['D', 'A', 'C', '8']);
                    assert(!(u.len() >= 5 && u.take(4) == seq!['R', 'I', 'I', 'C'] && digit_run(
                        u,
                        4,
                        u.len() as int,
                    )));
                    assert(!starts_with(u, seq!['E', 'T', 'H', 'E', 'R', 'C']));
                    assert(!starts_with(u, seq!['E', 'D', 'M', 'A', 'C']));
                    assert(generic_applies(u));
                    let m2 = choose|m: int| is_generic_split(u, m);
                    assert(m2 == q as int);
                    assert(spec_parse_peripheral_name(name@) == generic_result(name@, u));
                }
                return (name, None);
            },
        }
    }
    // No recognized form
    proof {
        assert forall|m: int| !is_generic_split(u, m) by {
            if 1 <= m < n {
                if q == n {
                    assert(is_name_char(u[m]));
                } else if m <= q {
                    let j0 = choose|j: int| q <= j < n && !is_digit(#[trigger] u[j]);
                    assert(q <= j0 < n && !is_digit(u[j0]));
                } else {
                    assert(q < n && !is_name_char(u[q as int]));
                }
            }
        }
    }
    (name, None)
}

/// Name round trip: a name synthesized as `{TYPE}{CHANNEL}`, for a base
/// type that has no bit-width-infix form, parses back to exactly that type
/// and channel.  (Types with an infix form — GPT, ADC, DAC — are excluded:
/// `DAC12` means a 12-bit DAC, not channel 12.)
#[verifier::rlimit(100)]
pub proof fn lemma_name_roundtrip(t: Seq<char>, channel: u32)
    requires
        t == seq!['S', 'C', 'I'] || t == seq!['S', 'P', 'I'] || t == seq!['I', 'I', 'C'] || t
            == seq!['C', 'A', 'N'] || t == seq!['A', 'G', 'T'] || t == seq!['S', 'S', 'I'] || t
            == seq!['D', 'M', 'A', 'C'] || t == seq!['P', 'O', 'E', 'G'] || t == seq![
            'C',
            'A',
            'N',
            'F',
            'D',
        ] || t == seq!['S', 'D', 'H', 'I'] || t == seq!['A', 'C', 'M', 'P', 'H', 'S'] || t == seq![
            'D',
            'S',
            'M',
            'I',
            'F',
        ] || t == seq!['U', 'L', 'P', 'T'],
    ensures
        spec_parse_peripheral_name(t + crate::text::spec_u32_digits(channel as nat)) == (
            t,
            Some(channel),
        ),
{
    let ds = crate::text::spec_u32_digits(channel as nat);
    crate::text::lemma_u32_digits_val(channel as nat);
    let name = t + ds;
    let u = upper(name);
    let m = t.len() as int;
    let n = name.len() as int;
    assert(3 <= m <= 6);
    assert(n == m + ds.len());
    assert(forall|j: int| 0 <= j < m ==> is_upper(#[trigger] t[j]));
    assert forall|i: int| 0 <= i < n implies upper_char(#[trigger] name[i]) == name[i] by {
        if i < m {
            assert(name[i] == t[i]);
        } else {
            assert(name[i] == ds[i - m]);
            assert(is_digit(ds[i - m]));
        }
    }
    assert(u =~= name);
    assert(forall|i: int| 0 <= i < m ==> #[trigger] u[i] == t[i]);
    assert forall|j: int| m <= j < n implies is_digit(#[trigger] u[j]) by {
        assert(u[j] == ds[j - m]);
    }
    assert(u.skip(m) =~= ds);
    assert(chan_of(ds) == Some(channel));

    // materialize the indices the branch tests compare
    assert(u.take(3)[0] == u[0] && u.take(3)[1] == u[1] && u.take(3)[2] == u[2]);
    assert(u.take(4)[0] == u[0] && u.take(4)[1] == u[1] && u.take(4)[2] == u[2] && u.take(4)[3]
        == u[3]);
    if n >= 5 {
        assert(u.take(5)[1] == u[1]);
    }
    if n >= 6 {
        assert(u.take(6)[0] == u[0]);
    }
    assert(seq!['D', 'A', 'C', '1', '2'][1] == 'A');
    assert(seq!['D', 'A', 'C', '8'][1] == 'A');
    assert(seq!['E', 'T', 'H', 'E', 'R', 'C'][0] == 'E');
    assert(seq!['E', 'D', 'M', 'A', 'C'][0] == 'E');

    if t == seq!['S', 'S', 'I'] {
        // the dedicated SSI branch answers
        assert(u.take(3) =~= seq!['S', 'S', 'I']);
        assert(!gpt_applies(u));
        assert(!adc_applies(u));
        assert(u[3] == ds[0] && is_digit(ds[0]));
        assert(!(u.len() >= 5 && u.take(4) == seq!['S', 'S', 'I', 'E'] && digit_run(
            u,
            4,
            u.len() as int,
        )));
        assert(spec_parse_peripheral_name(name) == (seq!['S', 'S', 'I'], Some(channel)));
    } else {
        // the generic name-plus-digits branch answers
        assert(!gpt_applies(u));
        assert(!adc_applies(u));
        assert(u.take(3) != seq!['S', 'S', 'I']);
        assert(u != seq!['D', 'A', 'C', '1', '2']);
        assert(u != seq!['D', 'A', 'C', '8']);
        assert(u.take(4) != seq!['R', 'I', 'I', 'C']);
        assert(!starts_with(u, seq!['E', 'T', 'H', 'E', 'R', 'C']));
        assert(!starts_with(u, seq!['E', 'D', 'M', 'A', 'C']));
        assert(is_generic_split(u, m));
        let m2 = choose|mm: int| is_generic_split(u, mm);
        assert(is_generic_split(u, m2));
        if m2 < m {
            assert(is_digit(u[m2]));
            assert(is_upper(u[m2]));
            assert(false);
        }
        if m2 > m {
            assert(is_name_char(u[m]));
            assert(is_digit(u[m]));
            assert(false);
        }
        assert(spec_parse_peripheral_name(name) == generic_result(name, u));
        assert(generic_result(name, u) == (t, Some(channel)));
    }
}

/// Get MSTP info for a peripheral instance name on the given chip.
pub open spec fn spec_get_mstp(name: Seq<char>, chip: Seq<char>) -> Option<MstpInfoV> {
    let (t, ch) = spec_parse_peripheral_name(name);
    let channel = match ch {
        Some(c) => c,
        None => 0u32,
    };
    spec_compute_mstp(t, channel, chip)
}

/// Get MSTP info for a peripheral instance name: parse it, then compute.
pub fn get_mstp_for_peripheral(peri_name: &str, chip_name: &str) -> (r: Option<MstpInfo>)
    ensures
        match r {
            Some(i) => spec_get_mstp(peri_name@, chip_name@) == Some(i@),
            None => spec_get_mstp(peri_name@, chip_name@) is None,
        },
{
    let (peri_type, channel) = parse_peripheral_name(peri_name);
    let ch = match channel {
        Some(c) => c,
        None => 0,
    };
    compute_mstp(peri_type, ch, chip_name)
}

} // verus!
