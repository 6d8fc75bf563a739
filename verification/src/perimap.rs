//! Perimap: the ordered rule table that maps a peripheral instance of a
//! chip to the register-block template and version that implement it.
//!
//! Each rule holds a pattern for the chip name and one for the instance
//! name (see [`crate::pattern`] for the pattern language).  The table is
//! consulted in declaration order and the first rule whose two patterns
//! both match wins, so more specific rules stand before the wildcard
//! fallbacks and the order below is load-bearing.  The table is written
//! down in parts only to keep each function small; the parts are consulted
//! strictly in order.

use vstd::prelude::*;
use crate::pattern::{pat_match, pat_matches};
use crate::text::str_chars;

verus! {

/// A register-block assignment: peripheral type, version, block name.
pub struct PeriInfo {
    pub peri_type: &'static str,
    pub version: &'static str,
    pub block: &'static str,
}

/// Mathematical value of a [`PeriInfo`].
pub ghost struct PeriInfoV {
    pub peri_type: Seq<char>,
    pub version: Seq<char>,
    pub block: Seq<char>,
}

impl View for PeriInfo {
    type V = PeriInfoV;

    open spec fn view(&self) -> PeriInfoV {
        PeriInfoV { peri_type: self.peri_type@, version: self.version@, block: self.block@ }
    }
}

/// Both patterns of one rule match the chip and instance names.
fn rule_hit(chip: &Vec<char>, inst: &Vec<char>, cp: &str, ip: &str) -> (r: bool)
    ensures
        r == (pat_matches(cp@, chip@) && pat_matches(ip@, inst@)),
{
    let cpv = str_chars(cp);
    if pat_match(&cpv, chip) {
        let ipv = str_chars(ip);
        pat_match(&ipv, inst)
    } else {
        false
    }
}

/// Rules for `R7FA0E1.*:PORT\\d+` through `R7FA6T3.*:PORT\\d+`,
/// in declaration order.
pub open spec fn spec_resolve_part1(chip: Seq<char>, inst: Seq<char>) -> Option<PeriInfoV> {
    // PORT (GPIO) mappings
    // RA0 family - each subfamily has different pin configs
    if pat_matches("R7FA0E1.*"@, chip) && pat_matches("PORT\\d+"@, inst) {
        Some(PeriInfoV { peri_type: "port"@, version: "v1"@, block: "PORT"@ })
    } else if pat_matches("R7FA0E2.*"@, chip) && pat_matches("PORT\\d+"@, inst) {
        Some(PeriInfoV { peri_type: "port"@, version: "v1"@, block: "PORT"@ })
    } else if pat_matches("R7FA0L1.*"@, chip) && pat_matches("PORT\\d+"@, inst) {
        Some(PeriInfoV { peri_type: "port"@, version: "v1"@, block: "PORT"@ })
    // RA2 family
    } else if pat_matches("R7FA2A1.*"@, chip) && pat_matches("PORT\\d+"@, inst) {
        Some(PeriInfoV { peri_type: "port"@, version: "v1"@, block: "PORT_extended"@ })
    } else if pat_matches("R7FA2A2.*"@, chip) && pat_matches("PORT\\d+"@, inst) {
        Some(PeriInfoV { peri_type: "port"@, version: "v1"@, block: "PORT_extended"@ })
    } else if pat_matches("R7FA2[ELT].*"@, chip) && pat_matches("PORT\\d+"@, inst) {
        Some(PeriInfoV { peri_type: "port"@, version: "v1"@, block: "PORT_extended"@ })
    // RA4 family
    } else if pat_matches("R7FA4M1.*"@, chip) && pat_matches("PORT\\d+"@, inst) {
        Some(PeriInfoV { peri_type: "port"@, version: "v1"@, block: "PORT_extended"@ })
    } else if pat_matches("R7FA4W1.*"@, chip) && pat_matches("PORT\\d+"@, inst) {
        Some(PeriInfoV { peri_type: "port"@, version: "v1"@, block: "PORT_extended"@ })
    } else if pat_matches("R7FA4[CELT].*"@, chip) && pat_matches("PORT\\d+"@, inst) {
        Some(PeriInfoV { peri_type: "port"@, version: "v1"@, block: "PORT_extended"@ })
    // RA6 family
    } else if pat_matches("R7FA6[MT]1.*"@, chip) && pat_matches("PORT\\d+"@, inst) {
        Some(PeriInfoV { peri_type: "port"@, version: "v1"@, block: "PORT_extended"@ })  // same as RA4W1
    } else if pat_matches("R7FA6T2.*"@, chip) && pat_matches("PORT\\d+"@, inst) {
        Some(PeriInfoV { peri_type: "port"@, version: "v1"@, block: "PORT_extended"@ })
    } else if pat_matches("R7FA6[EM].*"@, chip) && pat_matches("PORT\\d+"@, inst) {
        Some(PeriInfoV { peri_type: "port"@, version: "v1"@, block: "PORT_extended"@ })
    } else if pat_matches("R7FA6T3.*"@, chip) && pat_matches("PORT\\d+"@, inst) {
        Some(PeriInfoV { peri_type: "port"@, version: "v1"@, block: "PORT_extended"@ })
    } else {
        None
    }
}

#[verifier::rlimit(50)]
fn resolve_part1(chip: &Vec<char>, inst: &Vec<char>) -> (r: Option<PeriInfo>)
    ensures
        match r {
            Some(i) => spec_resolve_part1(chip@, inst@) == Some(i@),
            None => spec_resolve_part1(chip@, inst@) is None,
        },
{
    // PORT (GPIO) mappings
    // RA0 family - each subfamily has different pin configs
    if rule_hit(chip, inst, "R7FA0E1.*", "PORT\\d+") {
        Some(PeriInfo { peri_type: "port", version: "v1", block: "PORT" })
    } else if rule_hit(chip, inst, "R7FA0E2.*", "PORT\\d+") {
        Some(PeriInfo { peri_type: "port", version: "v1", block: "PORT" })
    } else if rule_hit(chip, inst, "R7FA0L1.*", "PORT\\d+") {
        Some(PeriInfo { peri_type: "port", version: "v1", block: "PORT" })
    // RA2 family
    } else if rule_hit(chip, inst, "R7FA2A1.*", "PORT\\d+") {
        Some(PeriInfo { peri_type: "port", version: "v1", block: "PORT_extended" })
    } else if rule_hit(chip, inst, "R7FA2A2.*", "PORT\\d+") {
        Some(PeriInfo { peri_type: "port", version: "v1", block: "PORT_extended" })
    } else if rule_hit(chip, inst, "R7FA2[ELT].*", "PORT\\d+") {
        Some(PeriInfo { peri_type: "port", version: "v1", block: "PORT_extended" })
    // RA4 family
    } else if rule_hit(chip, inst, "R7FA4M1.*", "PORT\\d+") {
        Some(PeriInfo { peri_type: "port", version: "v1", block: "PORT_extended" })
    } else if rule_hit(chip, inst, "R7FA4W1.*", "PORT\\d+") {
        Some(PeriInfo { peri_type: "port", version: "v1", block: "PORT_extended" })
    } else if rule_hit(chip, inst, "R7FA4[CELT].*", "PORT\\d+") {
        Some(PeriInfo { peri_type: "port", version: "v1", block: "PORT_extended" })
    // RA6 family
    } else if rule_hit(chip, inst, "R7FA6[MT]1.*", "PORT\\d+") {
        Some(PeriInfo { peri_type: "port", version: "v1", block: "PORT_extended" })  // same as RA4W1
    } else if rule_hit(chip, inst, "R7FA6T2.*", "PORT\\d+") {
        Some(PeriInfo { peri_type: "port", version: "v1", block: "PORT_extended" })
    } else if rule_hit(chip, inst, "R7FA6[EM].*", "PORT\\d+") {
        Some(PeriInfo { peri_type: "port", version: "v1", block: "PORT_extended" })
    } else if rule_hit(chip, inst, "R7FA6T3.*", "PORT\\d+") {
        Some(PeriInfo { peri_type: "port", version: "v1", block: "PORT_extended" })
    } else {
        None
    }
}

/// Rules for `R7FA8D1.*:PORT\\d+` through `R7FA2L1.*:GPT(?:4|5|6|7|8|9)`,
/// in declaration order.
pub open spec fn spec_resolve_part2(chip: Seq<char>, inst: Seq<char>) -> Option<PeriInfoV> {
    // RA8 family
    if pat_matches("R7FA8D1.*"@, chip) && pat_matches("PORT\\d+"@, inst) {
        Some(PeriInfoV { peri_type: "port"@, version: "v1"@, block: "PORT_extended"@ })
    } else if pat_matches("R7FA8E.*"@, chip) && pat_matches("PORT\\d+"@, inst) {
        Some(PeriInfoV { peri_type: "port"@, version: "v1"@, block: "PORT_extended"@ })
    } else if pat_matches("R7FA8[MT]1.*"@, chip) && pat_matches("PORT\\d+"@, inst) {
        Some(PeriInfoV { peri_type: "port"@, version: "v1"@, block: "PORT_extended"@ })
    // RKA8 family
    } else if pat_matches("R7KA8.*"@, chip) && pat_matches("PORT\\d+"@, inst) {
        Some(PeriInfoV { peri_type: "port"@, version: "v1"@, block: "PORT_extended"@ })
    // PFS (Pin Function Select)
    // RA0 family uses 16-bit PFS_A (normalized to PFS in generate.rs)
    } else if pat_matches("R7FA0.*"@, chip) && pat_matches("PFS"@, inst) {
        Some(PeriInfoV { peri_type: "pfs"@, version: "v2"@, block: "PFS"@ })
    // All other chips use 32-bit PFS
    } else if pat_matches(".*"@, chip) && pat_matches("PFS"@, inst) {
        Some(PeriInfoV { peri_type: "pfs"@, version: "v1"@, block: "PFS"@ })
    // Timer mappings (General PWM Timer).  GPT16 and GPT32 share one
    // register layout; GPT16 merely uses 16 of the 32 bits.
    // RA2 family
    } else if pat_matches("R7FA2A1.*"@, chip) && pat_matches("GPT(?:1|2|3|4|5|6)"@, inst) {
        Some(PeriInfoV { peri_type: "gpt"@, version: "v1"@, block: "GPT"@ })  // gpt16
    } else if pat_matches("R7FA2A1.*"@, chip) && pat_matches("GPT0"@, inst) {
        Some(PeriInfoV { peri_type: "gpt"@, version: "v1"@, block: "GPT"@ })  // gpt32
    } else if pat_matches("R7FA2A2.*"@, chip) && pat_matches("GPT\\d+"@, inst) {
        Some(PeriInfoV { peri_type: "gpt"@, version: "v1"@, block: "GPT"@ })  // gpt16
    } else if pat_matches("R7FA2E1.*"@, chip) && pat_matches("GPT(?:4|5|6|7|8|9)"@, inst) {
        Some(PeriInfoV { peri_type: "gpt"@, version: "v1"@, block: "GPT"@ })  // gpt16
    } else if pat_matches("R7FA2E1.*"@, chip) && pat_matches("GPT0"@, inst) {
        Some(PeriInfoV { peri_type: "gpt"@, version: "v1"@, block: "GPT"@ })  // gpt32
    } else if pat_matches("R7FA2E2.*"@, chip) && pat_matches("GPT\\d+"@, inst) {
        Some(PeriInfoV { peri_type: "gpt"@, version: "v1"@, block: "GPT"@ })  // gpt16
    } else if pat_matches("R7FA2E3.*"@, chip) && pat_matches("GPT(?:4|5|6|7|8|9)"@, inst) {
        Some(PeriInfoV { peri_type: "gpt"@, version: "v1"@, block: "GPT"@ })  // gpt16
    } else if pat_matches("R7FA2E3.*"@, chip) && pat_matches("GPT0"@, inst) {
        Some(PeriInfoV { peri_type: "gpt"@, version: "v1"@, block: "GPT"@ })  // gpt32
    } else if pat_matches("R7FA2L1.*"@, chip) && pat_matches("GPT(?:0|1|2|3)"@, inst) {
        Some(PeriInfoV { peri_type: "gpt"@, version: "v1"@, block: "GPT"@ })  // gpt32
    } else if pat_matches("R7FA2L1.*"@, chip) && pat_matches("GPT(?:4|5|6|7|8|9)"@, inst) {
        Some(PeriInfoV { peri_type: "gpt"@, version: "v1"@, block: "GPT"@ })  // gpt16
    } else {
        None
    }
}

#[verifier::rlimit(50)]
fn resolve_part2(chip: &Vec<char>, inst: &Vec<char>) -> (r: Option<PeriInfo>)
    ensures
        match r {
            Some(i) => spec_resolve_part2(chip@, inst@) == Some(i@),
            None => spec_resolve_part2(chip@, inst@) is None,
        },
{
    // RA8 family
    if rule_hit(chip, inst, "R7FA8D1.*", "PORT\\d+") {
        Some(PeriInfo { peri_type: "port", version: "v1", block: "PORT_extended" })
    } else if rule_hit(chip, inst, "R7FA8E.*", "PORT\\d+") {
        Some(PeriInfo { peri_type: "port", version: "v1", block: "PORT_extended" })
    } else if rule_hit(chip, inst, "R7FA8[MT]1.*", "PORT\\d+") {
        Some(PeriInfo { peri_type: "port", version: "v1", block: "PORT_extended" })
    // RKA8 family
    } else if rule_hit(chip, inst, "R7KA8.*", "PORT\\d+") {
        Some(PeriInfo { peri_type: "port", version: "v1", block: "PORT_extended" })
    // PFS (Pin Function Select)
    // RA0 family uses 16-bit PFS_A (normalized to PFS in generate.rs)
    } else if rule_hit(chip, inst, "R7FA0.*", "PFS") {
        Some(PeriInfo { peri_type: "pfs", version: "v2", block: "PFS" })
    // All other chips use 32-bit PFS
    } else if rule_hit(chip, inst, ".*", "PFS") {
        Some(PeriInfo { peri_type: "pfs", version: "v1", block: "PFS" })
    // Timer mappings (General PWM Timer).  GPT16 and GPT32 share one
    // register layout; GPT16 merely uses 16 of the 32 bits.
    // RA2 family
    } else if rule_hit(chip, inst, "R7FA2A1.*", "GPT(?:1|2|3|4|5|6)") {
        Some(PeriInfo { peri_type: "gpt", version: "v1", block: "GPT" })  // gpt16
    } else if rule_hit(chip, inst, "R7FA2A1.*", "GPT0") {
        Some(PeriInfo { peri_type: "gpt", version: "v1", block: "GPT" })  // gpt32
    } else if rule_hit(chip, inst, "R7FA2A2.*", "GPT\\d+") {
        Some(PeriInfo { peri_type: "gpt", version: "v1", block: "GPT" })  // gpt16
    } else if rule_hit(chip, inst, "R7FA2E1.*", "GPT(?:4|5|6|7|8|9)") {
        Some(PeriInfo { peri_type: "gpt", version: "v1", block: "GPT" })  // gpt16
    } else if rule_hit(chip, inst, "R7FA2E1.*", "GPT0") {
        Some(PeriInfo { peri_type: "gpt", version: "v1", block: "GPT" })  // gpt32
    } else if rule_hit(chip, inst, "R7FA2E2.*", "GPT\\d+") {
        Some(PeriInfo { peri_type: "gpt", version: "v1", block: "GPT" })  // gpt16
    } else if rule_hit(chip, inst, "R7FA2E3.*", "GPT(?:4|5|6|7|8|9)") {
        Some(PeriInfo { peri_type: "gpt", version: "v1", block: "GPT" })  // gpt16
    } else if rule_hit(chip, inst, "R7FA2E3.*", "GPT0") {
        Some(PeriInfo { peri_type: "gpt", version: "v1", block: "GPT" })  // gpt32
    } else if rule_hit(chip, inst, "R7FA2L1.*", "GPT(?:0|1|2|3)") {
        Some(PeriInfo { peri_type: "gpt", version: "v1", block: "GPT" })  // gpt32
    } else if rule_hit(chip, inst, "R7FA2L1.*", "GPT(?:4|5|6|7|8|9)") {
        Some(PeriInfo { peri_type: "gpt", version: "v1", block: "GPT" })  // gpt16
    } else {
        None
    }
}

/// Rules for `R7FA2L2.*:GPT(?:4|5|6|7|8|9)` through `R7FA4M3.*:GPT(?:4|5|6|7)`,
/// in declaration order.
pub open spec fn spec_resolve_part3(chip: Seq<char>, inst: Seq<char>) -> Option<PeriInfoV> {
    if pat_matches("R7FA2L2.*"@, chip) && pat_matches("GPT(?:4|5|6|7|8|9)"@, inst) {
        Some(PeriInfoV { peri_type: "gpt"@, version: "v1"@, block: "GPT"@ })  // gpt16
    } else if pat_matches("R7FA2L2.*"@, chip) && pat_matches("GPT0"@, inst) {
        Some(PeriInfoV { peri_type: "gpt"@, version: "v1"@, block: "GPT"@ })  // gpt32
    } else if pat_matches("R7FA2T1.*"@, chip) && pat_matches("GPT\\d+"@, inst) {
        Some(PeriInfoV { peri_type: "gpt"@, version: "v1"@, block: "GPT"@ })  // gpt16
    // RA4 family
    } else if pat_matches("R7FA4C1.*"@, chip) && pat_matches("GPT(?:0|1)"@, inst) {
        Some(PeriInfoV { peri_type: "gpt"@, version: "v1"@, block: "GPT"@ })  // gpt32
    } else if pat_matches("R7FA4C1.*"@, chip) && pat_matches("GPT(?:2|3|4|5)"@, inst) {
        Some(PeriInfoV { peri_type: "gpt"@, version: "v1"@, block: "GPT"@ })  // gpt16
    } else if pat_matches("R7FA4E1.*"@, chip) && pat_matches("GPT(?:1|2)"@, inst) {
        Some(PeriInfoV { peri_type: "gpt"@, version: "v1"@, block: "GPT"@ })  // gpt32
    } else if pat_matches("R7FA4E1.*"@, chip) && pat_matches("GPT(?:4|5)"@, inst) {
        Some(PeriInfoV { peri_type: "gpt"@, version: "v1"@, block: "GPT"@ })  // gpt16
    } else if pat_matches("R7FA4E2.*"@, chip) && pat_matches("GPT\\d+"@, inst) {
        Some(PeriInfoV { peri_type: "gpt"@, version: "v1"@, block: "GPT16E"@ })
    } else if pat_matches("R7FA4L1.*"@, chip) && pat_matches("GPT(?:0|1)"@, inst) {
        Some(PeriInfoV { peri_type: "gpt"@, version: "v1"@, block: "GPT"@ })  // gpt32
    } else if pat_matches("R7FA4L1.*"@, chip) && pat_matches("GPT(?:2|3|4|5)"@, inst) {
        Some(PeriInfoV { peri_type: "gpt"@, version: "v1"@, block: "GPT"@ })  // gpt16
    } else if pat_matches("R7FA4M1.*"@, chip) && pat_matches("GPT(?:0|1)"@, inst) {
        Some(PeriInfoV { peri_type: "gpt"@, version: "v1"@, block: "GPT"@ })  // gpt32
    } else if pat_matches("R7FA4M1.*"@, chip) && pat_matches("GPT(?:2|3|4|5|6|7)"@, inst) {
        Some(PeriInfoV { peri_type: "gpt"@, version: "v1"@, block: "GPT"@ })  // gpt16
    } else if pat_matches("R7FA4M2.*"@, chip) && pat_matches("GPT(?:0|1|2|3)"@, inst) {
        Some(PeriInfoV { peri_type: "gpt"@, version: "v1"@, block: "GPT"@ })  // gpt32
    } else if pat_matches("R7FA4M2.*"@, chip) && pat_matches("GPT(?:4|5|6|7)"@, inst) {
        Some(PeriInfoV { peri_type: "gpt"@, version: "v1"@, block: "GPT"@ })  // gpt16
    } else if pat_matches("R7FA4M3.*"@, chip) && pat_matches("GPT(?:0|1|2|3)"@, inst) {
        Some(PeriInfoV { peri_type: "gpt"@, version: "v1"@, block: "GPT"@ })  // gpt32
    } else if pat_matches("R7FA4M3.*"@, chip) && pat_matches("GPT(?:4|5|6|7)"@, inst) {
        Some(PeriInfoV { peri_type: "gpt"@, version: "v1"@, block: "GPT"@ })  // gpt16
    } else {
        None
    }
}

#[verifier::rlimit(50)]
fn resolve_part3(chip: &Vec<char>, inst: &Vec<char>) -> (r: Option<PeriInfo>)
    ensures
        match r {
            Some(i) => spec_resolve_part3(chip@, inst@) == Some(i@),
            None => spec_resolve_part3(chip@, inst@) is None,
        },
{
    if rule_hit(chip, inst, "R7FA2L2.*", "GPT(?:4|5|6|7|8|9)") {
        Some(PeriInfo { peri_type: "gpt", version: "v1", block: "GPT" })  // gpt16
    } else if rule_hit(chip, inst, "R7FA2L2.*", "GPT0") {
        Some(PeriInfo { peri_type: "gpt", version: "v1", block: "GPT" })  // gpt32
    } else if rule_hit(chip, inst, "R7FA2T1.*", "GPT\\d+") {
        Some(PeriInfo { peri_type: "gpt", version: "v1", block: "GPT" })  // gpt16
    // RA4 family
    } else if rule_hit(chip, inst, "R7FA4C1.*", "GPT(?:0|1)") {
        Some(PeriInfo { peri_type: "gpt", version: "v1", block: "GPT" })  // gpt32
    } else if rule_hit(chip, inst, "R7FA4C1.*", "GPT(?:2|3|4|5)") {
        Some(PeriInfo { peri_type: "gpt", version: "v1", block: "GPT" })  // gpt16
    } else if rule_hit(chip, inst, "R7FA4E1.*", "GPT(?:1|2)") {
        Some(PeriInfo { peri_type: "gpt", version: "v1", block: "GPT" })  // gpt32
    } else if rule_hit(chip, inst, "R7FA4E1.*", "GPT(?:4|5)") {
        Some(PeriInfo { peri_type: "gpt", version: "v1", block: "GPT" })  // gpt16
    } else if rule_hit(chip, inst, "R7FA4E2.*", "GPT\\d+") {
        Some(PeriInfo { peri_type: "gpt", version: "v1", block: "GPT16E" })
    } else if rule_hit(chip, inst, "R7FA4L1.*", "GPT(?:0|1)") {
        Some(PeriInfo { peri_type: "gpt", version: "v1", block: "GPT" })  // gpt32
    } else if rule_hit(chip, inst, "R7FA4L1.*", "GPT(?:2|3|4|5)") {
        Some(PeriInfo { peri_type: "gpt", version: "v1", block: "GPT" })  // gpt16
    } else if rule_hit(chip, inst, "R7FA4M1.*", "GPT(?:0|1)") {
        Some(PeriInfo { peri_type: "gpt", version: "v1", block: "GPT" })  // gpt32
    } else if rule_hit(chip, inst, "R7FA4M1.*", "GPT(?:2|3|4|5|6|7)") {
        Some(PeriInfo { peri_type: "gpt", version: "v1", block: "GPT" })  // gpt16
    } else if rule_hit(chip, inst, "R7FA4M2.*", "GPT(?:0|1|2|3)") {
        Some(PeriInfo { peri_type: "gpt", version: "v1", block: "GPT" })  // gpt32
    } else if rule_hit(chip, inst, "R7FA4M2.*", "GPT(?:4|5|6|7)") {
        Some(PeriInfo { peri_type: "gpt", version: "v1", block: "GPT" })  // gpt16
    } else if rule_hit(chip, inst, "R7FA4M3.*", "GPT(?:0|1|2|3)") {
        Some(PeriInfo { peri_type: "gpt", version: "v1", block: "GPT" })  // gpt32
    } else if rule_hit(chip, inst, "R7FA4M3.*", "GPT(?:4|5|6|7)") {
        Some(PeriInfo { peri_type: "gpt", version: "v1", block: "GPT" })  // gpt16
    } else {
        None
    }
}

/// Rules for `R7FA4T1.*:GPT\\d+` through `R7FA6M4.*:GPT(?:0|1|2|3)`,
/// in declaration order.
pub open spec fn spec_resolve_part4(chip: Seq<char>, inst: Seq<char>) -> Option<PeriInfoV> {
    if pat_matches("R7FA4T1.*"@, chip) && pat_matches("GPT\\d+"@, inst) {
        Some(PeriInfoV { peri_type: "gpt"@, version: "v1"@, block: "GPT16E"@ })
    } else if pat_matches("R7FA4W1.*"@, chip) && pat_matches("GPT(?:0|1|2|3)"@, inst) {
        Some(PeriInfoV { peri_type: "gpt"@, version: "v1"@, block: "GPT"@ })  // gpt32
    } else if pat_matches("R7FA4W1.*"@, chip) && pat_matches("GPT(?:4|5|8)"@, inst) {
        Some(PeriInfoV { peri_type: "gpt"@, version: "v1"@, block: "GPT"@ })  // gpt16
    // RA6 family
    } else if pat_matches("R7FA6E1.*"@, chip) && pat_matches("GPT(?:1|2)"@, inst) {
        Some(PeriInfoV { peri_type: "gpt"@, version: "v1"@, block: "GPT"@ })  // gpt32
    } else if pat_matches("R7FA6E1.*"@, chip) && pat_matches("GPT(?:4|5|6|7)"@, inst) {
        Some(PeriInfoV { peri_type: "gpt"@, version: "v1"@, block: "GPT"@ })  // gpt16
    } else if pat_matches("R7FA6E2.*"@, chip) && pat_matches("GPT\\d+"@, inst) {
        Some(PeriInfoV { peri_type: "gpt"@, version: "v1"@, block: "GPT16E"@ })
    } else if pat_matches("R7FA6M1.*"@, chip) && pat_matches("GPT(?:0|1|2|3)"@, inst) {
        Some(PeriInfoV { peri_type: "gpt"@, version: "v1"@, block: "GPT32E"@ })  // gpt32eh
    } else if pat_matches("R7FA6M1.*"@, chip) && pat_matches("GPT(?:4|5|6|7)"@, inst) {
        Some(PeriInfoV { peri_type: "gpt"@, version: "v1"@, block: "GPT32E"@ })
    } else if pat_matches("R7FA6M1.*"@, chip) && pat_matches("GPT(?:8|9|10|11|12)"@, inst) {
        Some(PeriInfoV { peri_type: "gpt"@, version: "v1"@, block: "GPT"@ })  // gpt32
    } else if pat_matches("R7FA6M2.*"@, chip) && pat_matches("GPT(?:0|1|2|3)"@, inst) {
        Some(PeriInfoV { peri_type: "gpt"@, version: "v1"@, block: "GPT32E"@ })  // gpt32eh
    } else if pat_matches("R7FA6M2.*"@, chip) && pat_matches("GPT(?:4|5|6|7)"@, inst) {
        Some(PeriInfoV { peri_type: "gpt"@, version: "v1"@, block: "GPT32E"@ })
    } else if pat_matches("R7FA6M2.*"@, chip) && pat_matches("GPT(?:8|9|10|11|12|13)"@, inst) {
        Some(PeriInfoV { peri_type: "gpt"@, version: "v1"@, block: "GPT"@ })  // gpt32
    } else if pat_matches("R7FA6M3.*"@, chip) && pat_matches("GPT(?:0|1|2|3)"@, inst) {
        Some(PeriInfoV { peri_type: "gpt"@, version: "v1"@, block: "GPT32E"@ })  // gpt32eh
    } else if pat_matches("R7FA6M3.*"@, chip) && pat_matches("GPT(?:4|5|6|7)"@, inst) {
        Some(PeriInfoV { peri_type: "gpt"@, version: "v1"@, block: "GPT32E"@ })
    } else if pat_matches("R7FA6M3.*"@, chip) && pat_matches("GPT(?:8|9|10|11|12|13)"@, inst) {
        Some(PeriInfoV { peri_type: "gpt"@, version: "v1"@, block: "GPT"@ })  // gpt32
    } else if pat_matches("R7FA6M4.*"@, chip) && pat_matches("GPT(?:0|1|2|3)"@, inst) {
        Some(PeriInfoV { peri_type: "gpt"@, version: "v1"@, block: "GPT"@ })  // gpt32
    } else {
        None
    }
}

#[verifier::rlimit(50)]
fn resolve_part4(chip: &Vec<char>, inst: &Vec<char>) -> (r: Option<PeriInfo>)
    ensures
        match r {
            Some(i) => spec_resolve_part4(chip@, inst@) == Some(i@),
            None => spec_resolve_part4(chip@, inst@) is None,
        },
{
    if rule_hit(chip, inst, "R7FA4T1.*", "GPT\\d+") {
        Some(PeriInfo { peri_type: "gpt", version: "v1", block: "GPT16E" })
    } else if rule_hit(chip, inst, "R7FA4W1.*", "GPT(?:0|1|2|3)") {
        Some(PeriInfo { peri_type: "gpt", version: "v1", block: "GPT" })  // gpt32
    } else if rule_hit(chip, inst, "R7FA4W1.*", "GPT(?:4|5|8)") {
        Some(PeriInfo { peri_type: "gpt", version: "v1", block: "GPT" })  // gpt16
    // RA6 family
    } else if rule_hit(chip, inst, "R7FA6E1.*", "GPT(?:1|2)") {
        Some(PeriInfo { peri_type: "gpt", version: "v1", block: "GPT" })  // gpt32
    } else if rule_hit(chip, inst, "R7FA6E1.*", "GPT(?:4|5|6|7)") {
        Some(PeriInfo { peri_type: "gpt", version: "v1", block: "GPT" })  // gpt16
    } else if rule_hit(chip, inst, "R7FA6E2.*", "GPT\\d+") {
        Some(PeriInfo { peri_type: "gpt", version: "v1", block: "GPT16E" })
    } else if rule_hit(chip, inst, "R7FA6M1.*", "GPT(?:0|1|2|3)") {
        Some(PeriInfo { peri_type: "gpt", version: "v1", block: "GPT32E" })  // gpt32eh
    } else if rule_hit(chip, inst, "R7FA6M1.*", "GPT(?:4|5|6|7)") {
        Some(PeriInfo { peri_type: "gpt", version: "v1", block: "GPT32E" })
    } else if rule_hit(chip, inst, "R7FA6M1.*", "GPT(?:8|9|10|11|12)") {
        Some(PeriInfo { peri_type: "gpt", version: "v1", block: "GPT" })  // gpt32
    } else if rule_hit(chip, inst, "R7FA6M2.*", "GPT(?:0|1|2|3)") {
        Some(PeriInfo { peri_type: "gpt", version: "v1", block: "GPT32E" })  // gpt32eh
    } else if rule_hit(chip, inst, "R7FA6M2.*", "GPT(?:4|5|6|7)") {
        Some(PeriInfo { peri_type: "gpt", version: "v1", block: "GPT32E" })
    } else if rule_hit(chip, inst, "R7FA6M2.*", "GPT(?:8|9|10|11|12|13)") {
        Some(PeriInfo { peri_type: "gpt", version: "v1", block: "GPT" })  // gpt32
    } else if rule_hit(chip, inst, "R7FA6M3.*", "GPT(?:0|1|2|3)") {
        Some(PeriInfo { peri_type: "gpt", version: "v1", block: "GPT32E" })  // gpt32eh
    } else if rule_hit(chip, inst, "R7FA6M3.*", "GPT(?:4|5|6|7)") {
        Some(PeriInfo { peri_type: "gpt", version: "v1", block: "GPT32E" })
    } else if rule_hit(chip, inst, "R7FA6M3.*", "GPT(?:8|9|10|11|12|13)") {
        Some(PeriInfo { peri_type: "gpt", version: "v1", block: "GPT" })  // gpt32
    } else if rule_hit(chip, inst, "R7FA6M4.*", "GPT(?:0|1|2|3)") {
        Some(PeriInfo { peri_type: "gpt", version: "v1", block: "GPT" })  // gpt32
    } else {
        None
    }
}

/// Rules for `R7FA6M4.*:GPT(?:4|5|6|7|8|9)` through `R7FA8M1.*:GPT(?:8|9|10|11|12|13)`,
/// in declaration order.
pub open spec fn spec_resolve_part5(chip: Seq<char>, inst: Seq<char>) -> Option<PeriInfoV> {
    if pat_matches("R7FA6M4.*"@, chip) && pat_matches("GPT(?:4|5|6|7|8|9)"@, inst) {
        Some(PeriInfoV { peri_type: "gpt"@, version: "v1"@, block: "GPT"@ })  // gpt16
    } else if pat_matches("R7FA6M5.*"@, chip) && pat_matches("GPT(?:0|1|2|3)"@, inst) {
        Some(PeriInfoV { peri_type: "gpt"@, version: "v1"@, block: "GPT"@ })  // gpt32
    } else if pat_matches("R7FA6M5.*"@, chip) && pat_matches("GPT(?:4|5|6|7|8|9)"@, inst) {
        Some(PeriInfoV { peri_type: "gpt"@, version: "v1"@, block: "GPT"@ })  // gpt16
    } else if pat_matches("R7FA6T1.*"@, chip) && pat_matches("GPT(?:0|1|2|3)"@, inst) {
        Some(PeriInfoV { peri_type: "gpt"@, version: "v1"@, block: "GPT32E"@ })  // gpt32eh
    } else if pat_matches("R7FA6T1.*"@, chip) && pat_matches("GPT(?:4|5|6|7)"@, inst) {
        Some(PeriInfoV { peri_type: "gpt"@, version: "v1"@, block: "GPT32E"@ })
    } else if pat_matches("R7FA6T1.*"@, chip) && pat_matches("GPT(?:8|9|10|11|12)"@, inst) {
        Some(PeriInfoV { peri_type: "gpt"@, version: "v1"@, block: "GPT"@ })  // gpt32
    } else if pat_matches("R7FA6T2.*"@, chip) && pat_matches("GPT\\d+"@, inst) {
        Some(PeriInfoV { peri_type: "gpt"@, version: "v1"@, block: "GPT"@ })  // gpt32
    } else if pat_matches("R7FA6T3.*"@, chip) && pat_matches("GPT\\d+"@, inst) {
        Some(PeriInfoV { peri_type: "gpt"@, version: "v1"@, block: "GPT16E"@ })
    // RA8 family
    } else if pat_matches("R7FA8D1.*"@, chip) && pat_matches("GPT(?:0|1|2|3|4|5|6|7)"@, inst) {
        Some(PeriInfoV { peri_type: "gpt"@, version: "v1"@, block: "GPT"@ })  // gpt32
    } else if pat_matches("R7FA8D1.*"@, chip) && pat_matches("GPT(?:8|9|10|11|12|13)"@, inst) {
        Some(PeriInfoV { peri_type: "gpt"@, version: "v1"@, block: "GPT"@ })  // gpt16
    } else if pat_matches("R7FA8E1.*"@, chip) && pat_matches("GPT(?:0|1|2|3|4|5)"@, inst) {
        Some(PeriInfoV { peri_type: "gpt"@, version: "v1"@, block: "GPT"@ })  // gpt32
    } else if pat_matches("R7FA8E1.*"@, chip) && pat_matches("GPT(?:10|11|12|13)"@, inst) {
        Some(PeriInfoV { peri_type: "gpt"@, version: "v1"@, block: "GPT"@ })  // gpt16
    } else if pat_matches("R7FA8E2.*"@, chip) && pat_matches("GPT(?:0|1|2|3|4|5)"@, inst) {
        Some(PeriInfoV { peri_type: "gpt"@, version: "v1"@, block: "GPT"@ })  // gpt32
    } else if pat_matches("R7FA8E2.*"@, chip) && pat_matches("GPT(?:10|11|12|13)"@, inst) {
        Some(PeriInfoV { peri_type: "gpt"@, version: "v1"@, block: "GPT"@ })  // gpt16
    } else if pat_matches("R7FA8M1.*"@, chip) && pat_matches("GPT(?:0|1|2|3|4|5|6|7)"@, inst) {
        Some(PeriInfoV { peri_type: "gpt"@, version: "v1"@, block: "GPT"@ })  // gpt32
    } else if pat_matches("R7FA8M1.*"@, chip) && pat_matches("GPT(?:8|9|10|11|12|13)"@, inst) {
        Some(PeriInfoV { peri_type: "gpt"@, version: "v1"@, block: "GPT"@ })  // gpt16
    } else {
        None
    }
}

#[verifier::rlimit(50)]
fn resolve_part5(chip: &Vec<char>, inst: &Vec<char>) -> (r: Option<PeriInfo>)
    ensures
        match r {
            Some(i) => spec_resolve_part5(chip@, inst@) == Some(i@),
            None => spec_resolve_part5(chip@, inst@) is None,
        },
{
    if rule_hit(chip, inst, "R7FA6M4.*", "GPT(?:4|5|6|7|8|9)") {
        Some(PeriInfo { peri_type: "gpt", version: "v1", block: "GPT" })  // gpt16
    } else if rule_hit(chip, inst, "R7FA6M5.*", "GPT(?:0|1|2|3)") {
        Some(PeriInfo { peri_type: "gpt", version: "v1", block: "GPT" })  // gpt32
    } else if rule_hit(chip, inst, "R7FA6M5.*", "GPT(?:4|5|6|7|8|9)") {
        Some(PeriInfo { peri_type: "gpt", version: "v1", block: "GPT" })  // gpt16
    } else if rule_hit(chip, inst, "R7FA6T1.*", "GPT(?:0|1|2|3)") {
        Some(PeriInfo { peri_type: "gpt", version: "v1", block: "GPT32E" })  // gpt32eh
    } else if rule_hit(chip, inst, "R7FA6T1.*", "GPT(?:4|5|6|7)") {
        Some(PeriInfo { peri_type: "gpt", version: "v1", block: "GPT32E" })
    } else if rule_hit(chip, inst, "R7FA6T1.*", "GPT(?:8|9|10|11|12)") {
        Some(PeriInfo { peri_type: "gpt", version: "v1", block: "GPT" })  // gpt32
    } else if rule_hit(chip, inst, "R7FA6T2.*", "GPT\\d+") {
        Some(PeriInfo { peri_type: "gpt", version: "v1", block: "GPT" })  // gpt32
    } else if rule_hit(chip, inst, "R7FA6T3.*", "GPT\\d+") {
        Some(PeriInfo { peri_type: "gpt", version: "v1", block: "GPT16E" })
    // RA8 family
    } else if rule_hit(chip, inst, "R7FA8D1.*", "GPT(?:0|1|2|3|4|5|6|7)") {
        Some(PeriInfo { peri_type: "gpt", version: "v1", block: "GPT" })  // gpt32
    } else if rule_hit(chip, inst, "R7FA8D1.*", "GPT(?:8|9|10|11|12|13)") {
        Some(PeriInfo { peri_type: "gpt", version: "v1", block: "GPT" })  // gpt16
    } else if rule_hit(chip, inst, "R7FA8E1.*", "GPT(?:0|1|2|3|4|5)") {
        Some(PeriInfo { peri_type: "gpt", version: "v1", block: "GPT" })  // gpt32
    } else if rule_hit(chip, inst, "R7FA8E1.*", "GPT(?:10|11|12|13)") {
        Some(PeriInfo { peri_type: "gpt", version: "v1", block: "GPT" })  // gpt16
    } else if rule_hit(chip, inst, "R7FA8E2.*", "GPT(?:0|1|2|3|4|5)") {
        Some(PeriInfo { peri_type: "gpt", version: "v1", block: "GPT" })  // gpt32
    } else if rule_hit(chip, inst, "R7FA8E2.*", "GPT(?:10|11|12|13)") {
        Some(PeriInfo { peri_type: "gpt", version: "v1", block: "GPT" })  // gpt16
    } else if rule_hit(chip, inst, "R7FA8M1.*", "GPT(?:0|1|2|3|4|5|6|7)") {
        Some(PeriInfo { peri_type: "gpt", version: "v1", block: "GPT" })  // gpt32
    } else if rule_hit(chip, inst, "R7FA8M1.*", "GPT(?:8|9|10|11|12|13)") {
        Some(PeriInfo { peri_type: "gpt", version: "v1", block: "GPT" })  // gpt16
    } else {
        None
    }
}

/// Rules for `R7FA8T1.*:GPT(?:0|1|2|3|4|5|6|7)` through `R7FA2T1.*:ICU`,
/// in declaration order.
pub open spec fn spec_resolve_part6(chip: Seq<char>, inst: Seq<char>) -> Option<PeriInfoV> {
    if pat_matches("R7FA8T1.*"@, chip) && pat_matches("GPT(?:0|1|2|3|4|5|6|7)"@, inst) {
        Some(PeriInfoV { peri_type: "gpt"@, version: "v1"@, block: "GPT"@ })  // gpt32
    } else if pat_matches("R7FA8T1.*"@, chip) && pat_matches("GPT(?:8|9|10|11|12|13)"@, inst) {
        Some(PeriInfoV { peri_type: "gpt"@, version: "v1"@, block: "GPT"@ })  // gpt16
    // RKA8 family
    } else if pat_matches("R7KA8P1.*"@, chip) && pat_matches("GPT\\d+"@, inst) {
        Some(PeriInfoV { peri_type: "gpt"@, version: "v1"@, block: "GPT"@ })  // gpt32
    // ICU mappings (Interrupt Controller Unit)
    // RA0 family
    } else if pat_matches("R7FA0E1.*"@, chip) && pat_matches("ICU"@, inst) {
        Some(PeriInfoV { peri_type: "icu"@, version: "ra0e1"@, block: "ICU"@ })
    } else if pat_matches("R7FA0E2.*"@, chip) && pat_matches("ICU"@, inst) {
        Some(PeriInfoV { peri_type: "icu"@, version: "ra0e2"@, block: "ICU"@ })
    } else if pat_matches("R7FA0L1.*"@, chip) && pat_matches("ICU"@, inst) {
        Some(PeriInfoV { peri_type: "icu"@, version: "ra0l1"@, block: "ICU"@ })
    // RA2 family
    } else if pat_matches("R7FA2A1.*"@, chip) && pat_matches("ICU"@, inst) {
        Some(PeriInfoV { peri_type: "icu"@, version: "ra2a1"@, block: "ICU"@ })
    } else if pat_matches("R7FA2A2.*"@, chip) && pat_matches("ICU"@, inst) {
        Some(PeriInfoV { peri_type: "icu"@, version: "ra2a2"@, block: "ICU"@ })
    } else if pat_matches("R7FA2E1.*"@, chip) && pat_matches("ICU"@, inst) {
        Some(PeriInfoV { peri_type: "icu"@, version: "ra2e1"@, block: "ICU"@ })
    } else if pat_matches("R7FA2E2.*"@, chip) && pat_matches("ICU"@, inst) {
        Some(PeriInfoV { peri_type: "icu"@, version: "ra2e2"@, block: "ICU"@ })
    } else if pat_matches("R7FA2E3.*"@, chip) && pat_matches("ICU"@, inst) {
        Some(PeriInfoV { peri_type: "icu"@, version: "ra2e3"@, block: "ICU"@ })
    } else if pat_matches("R7FA2L1.*"@, chip) && pat_matches("ICU"@, inst) {
        Some(PeriInfoV { peri_type: "icu"@, version: "ra2l1"@, block: "ICU"@ })
    } else if pat_matches("R7FA2L2.*"@, chip) && pat_matches("ICU"@, inst) {
        Some(PeriInfoV { peri_type: "icu"@, version: "ra2l2"@, block: "ICU"@ })
    } else if pat_matches("R7FA2T1.*"@, chip) && pat_matches("ICU"@, inst) {
        Some(PeriInfoV { peri_type: "icu"@, version: "ra2t1"@, block: "ICU"@ })
    } else {
        None
    }
}

#[verifier::rlimit(50)]
fn resolve_part6(chip: &Vec<char>, inst: &Vec<char>) -> (r: Option<PeriInfo>)
    ensures
        match r {
            Some(i) => spec_resolve_part6(chip@, inst@) == Some(i@),
            None => spec_resolve_part6(chip@, inst@) is None,
        },
{
    if rule_hit(chip, inst, "R7FA8T1.*", "GPT(?:0|1|2|3|4|5|6|7)") {
        Some(PeriInfo { peri_type: "gpt", version: "v1", block: "GPT" })  // gpt32
    } else if rule_hit(chip, inst, "R7FA8T1.*", "GPT(?:8|9|10|11|12|13)") {
        Some(PeriInfo { peri_type: "gpt", version: "v1", block: "GPT" })  // gpt16
    // RKA8 family
    } else if rule_hit(chip, inst, "R7KA8P1.*", "GPT\\d+") {
        Some(PeriInfo { peri_type: "gpt", version: "v1", block: "GPT" })  // gpt32
    // ICU mappings (Interrupt Controller Unit)
    // RA0 family
    } else if rule_hit(chip, inst, "R7FA0E1.*", "ICU") {
        Some(PeriInfo { peri_type: "icu", version: "ra0e1", block: "ICU" })
    } else if rule_hit(chip, inst, "R7FA0E2.*", "ICU") {
        Some(PeriInfo { peri_type: "icu", version: "ra0e2", block: "ICU" })
    } else if rule_hit(chip, inst, "R7FA0L1.*", "ICU") {
        Some(PeriInfo { peri_type: "icu", version: "ra0l1", block: "ICU" })
    // RA2 family
    } else if rule_hit(chip, inst, "R7FA2A1.*", "ICU") {
        Some(PeriInfo { peri_type: "icu", version: "ra2a1", block: "ICU" })
    } else if rule_hit(chip, inst, "R7FA2A2.*", "ICU") {
        Some(PeriInfo { peri_type: "icu", version: "ra2a2", block: "ICU" })
    } else if rule_hit(chip, inst, "R7FA2E1.*", "ICU") {
        Some(PeriInfo { peri_type: "icu", version: "ra2e1", block: "ICU" })
    } else if rule_hit(chip, inst, "R7FA2E2.*", "ICU") {
        Some(PeriInfo { peri_type: "icu", version: "ra2e2", block: "ICU" })
    } else if rule_hit(chip, inst, "R7FA2E3.*", "ICU") {
        Some(PeriInfo { peri_type: "icu", version: "ra2e3", block: "ICU" })
    } else if rule_hit(chip, inst, "R7FA2L1.*", "ICU") {
        Some(PeriInfo { peri_type: "icu", version: "ra2l1", block: "ICU" })
    } else if rule_hit(chip, inst, "R7FA2L2.*", "ICU") {
        Some(PeriInfo { peri_type: "icu", version: "ra2l2", block: "ICU" })
    } else if rule_hit(chip, inst, "R7FA2T1.*", "ICU") {
        Some(PeriInfo { peri_type: "icu", version: "ra2t1", block: "ICU" })
    } else {
        None
    }
}

/// Rules for `R7FA4C1.*:ICU` through `R7FA6M5.*:ICU`,
/// in declaration order.
pub open spec fn spec_resolve_part7(chip: Seq<char>, inst: Seq<char>) -> Option<PeriInfoV> {
    // RA4 family
    if pat_matches("R7FA4C1.*"@, chip) && pat_matches("ICU"@, inst) {
        Some(PeriInfoV { peri_type: "icu"@, version: "ra4c1"@, block: "ICU"@ })
    } else if pat_matches("R7FA4E1.*"@, chip) && pat_matches("ICU"@, inst) {
        Some(PeriInfoV { peri_type: "icu"@, version: "ra4e1"@, block: "ICU"@ })
    } else if pat_matches("R7FA4E2.*"@, chip) && pat_matches("ICU"@, inst) {
        Some(PeriInfoV { peri_type: "icu"@, version: "ra4e2"@, block: "ICU"@ })
    } else if pat_matches("R7FA4L1.*"@, chip) && pat_matches("ICU"@, inst) {
        Some(PeriInfoV { peri_type: "icu"@, version: "ra4l1"@, block: "ICU"@ })
    } else if pat_matches("R7FA4M1.*"@, chip) && pat_matches("ICU"@, inst) {
        Some(PeriInfoV { peri_type: "icu"@, version: "ra4m1"@, block: "ICU"@ })
    } else if pat_matches("R7FA4M2.*"@, chip) && pat_matches("ICU"@, inst) {
        Some(PeriInfoV { peri_type: "icu"@, version: "ra4m2"@, block: "ICU"@ })
    } else if pat_matches("R7FA4M3.*"@, chip) && pat_matches("ICU"@, inst) {
        Some(PeriInfoV { peri_type: "icu"@, version: "ra4m3"@, block: "ICU"@ })
    } else if pat_matches("R7FA4T1.*"@, chip) && pat_matches("ICU"@, inst) {
        Some(PeriInfoV { peri_type: "icu"@, version: "ra4t1"@, block: "ICU"@ })
    } else if pat_matches("R7FA4W1.*"@, chip) && pat_matches("ICU"@, inst) {
        Some(PeriInfoV { peri_type: "icu"@, version: "ra4w1"@, block: "ICU"@ })
    // RA6 family (some shared with RA4)
    } else if pat_matches("R7FA6E1.*"@, chip) && pat_matches("ICU"@, inst) {
        Some(PeriInfoV { peri_type: "icu"@, version: "ra6e1"@, block: "ICU"@ })
    } else if pat_matches("R7FA6E2.*"@, chip) && pat_matches("ICU"@, inst) {
        Some(PeriInfoV { peri_type: "icu"@, version: "ra4e2"@, block: "ICU"@ })  // same as RA4E2
    } else if pat_matches("R7FA6M1.*"@, chip) && pat_matches("ICU"@, inst) {
        Some(PeriInfoV { peri_type: "icu"@, version: "ra6m1"@, block: "ICU"@ })
    } else if pat_matches("R7FA6M2.*"@, chip) && pat_matches("ICU"@, inst) {
        Some(PeriInfoV { peri_type: "icu"@, version: "ra6m2"@, block: "ICU"@ })
    } else if pat_matches("R7FA6M3.*"@, chip) && pat_matches("ICU"@, inst) {
        Some(PeriInfoV { peri_type: "icu"@, version: "ra6m2"@, block: "ICU"@ })  // same as RA6M2
    } else if pat_matches("R7FA6M4.*"@, chip) && pat_matches("ICU"@, inst) {
        Some(PeriInfoV { peri_type: "icu"@, version: "ra4m3"@, block: "ICU"@ })  // same as RA4M3
    } else if pat_matches("R7FA6M5.*"@, chip) && pat_matches("ICU"@, inst) {
        Some(PeriInfoV { peri_type: "icu"@, version: "ra6m5"@, block: "ICU"@ })
    } else {
        None
    }
}

#[verifier::rlimit(50)]
fn resolve_part7(chip: &Vec<char>, inst: &Vec<char>) -> (r: Option<PeriInfo>)
    ensures
        match r {
            Some(i) => spec_resolve_part7(chip@, inst@) == Some(i@),
            None => spec_resolve_part7(chip@, inst@) is None,
        },
{
    // RA4 family
    if rule_hit(chip, inst, "R7FA4C1.*", "ICU") {
        Some(PeriInfo { peri_type: "icu", version: "ra4c1", block: "ICU" })
    } else if rule_hit(chip, inst, "R7FA4E1.*", "ICU") {
        Some(PeriInfo { peri_type: "icu", version: "ra4e1", block: "ICU" })
    } else if rule_hit(chip, inst, "R7FA4E2.*", "ICU") {
        Some(PeriInfo { peri_type: "icu", version: "ra4e2", block: "ICU" })
    } else if rule_hit(chip, inst, "R7FA4L1.*", "ICU") {
        Some(PeriInfo { peri_type: "icu", version: "ra4l1", block: "ICU" })
    } else if rule_hit(chip, inst, "R7FA4M1.*", "ICU") {
        Some(PeriInfo { peri_type: "icu", version: "ra4m1", block: "ICU" })
    } else if rule_hit(chip, inst, "R7FA4M2.*", "ICU") {
        Some(PeriInfo { peri_type: "icu", version: "ra4m2", block: "ICU" })
    } else if rule_hit(chip, inst, "R7FA4M3.*", "ICU") {
        Some(PeriInfo { peri_type: "icu", version: "ra4m3", block: "ICU" })
    } else if rule_hit(chip, inst, "R7FA4T1.*", "ICU") {
        Some(PeriInfo { peri_type: "icu", version: "ra4t1", block: "ICU" })
    } else if rule_hit(chip, inst, "R7FA4W1.*", "ICU") {
        Some(PeriInfo { peri_type: "icu", version: "ra4w1", block: "ICU" })
    // RA6 family (some shared with RA4)
    } else if rule_hit(chip, inst, "R7FA6E1.*", "ICU") {
        Some(PeriInfo { peri_type: "icu", version: "ra6e1", block: "ICU" })
    } else if rule_hit(chip, inst, "R7FA6E2.*", "ICU") {
        Some(PeriInfo { peri_type: "icu", version: "ra4e2", block: "ICU" })  // same as RA4E2
    } else if rule_hit(chip, inst, "R7FA6M1.*", "ICU") {
        Some(PeriInfo { peri_type: "icu", version: "ra6m1", block: "ICU" })
    } else if rule_hit(chip, inst, "R7FA6M2.*", "ICU") {
        Some(PeriInfo { peri_type: "icu", version: "ra6m2", block: "ICU" })
    } else if rule_hit(chip, inst, "R7FA6M3.*", "ICU") {
        Some(PeriInfo { peri_type: "icu", version: "ra6m2", block: "ICU" })  // same as RA6M2
    } else if rule_hit(chip, inst, "R7FA6M4.*", "ICU") {
        Some(PeriInfo { peri_type: "icu", version: "ra4m3", block: "ICU" })  // same as RA4M3
    } else if rule_hit(chip, inst, "R7FA6M5.*", "ICU") {
        Some(PeriInfo { peri_type: "icu", version: "ra6m5", block: "ICU" })
    } else {
        None
    }
}

/// Rules for `R7FA6T1.*:ICU` through `.*:MSTP`,
/// in declaration order.
pub open spec fn spec_resolve_part8(chip: Seq<char>, inst: Seq<char>) -> Option<PeriInfoV> {
    if pat_matches("R7FA6T1.*"@, chip) && pat_matches("ICU"@, inst) {
        Some(PeriInfoV { peri_type: "icu"@, version: "ra6m1"@, block: "ICU"@ })  // same as RA6M1
    } else if pat_matches("R7FA6T2.*"@, chip) && pat_matches("ICU"@, inst) {
        Some(PeriInfoV { peri_type: "icu"@, version: "ra6t2"@, block: "ICU"@ })
    } else if pat_matches("R7FA6T3.*"@, chip) && pat_matches("ICU"@, inst) {
        Some(PeriInfoV { peri_type: "icu"@, version: "ra6t3"@, block: "ICU"@ })
    // RA8 family
    } else if pat_matches("R7FA8D1.*"@, chip) && pat_matches("ICU"@, inst) {
        Some(PeriInfoV { peri_type: "icu"@, version: "ra8d1"@, block: "ICU"@ })
    } else if pat_matches("R7FA8E.*"@, chip) && pat_matches("ICU"@, inst) {
        Some(PeriInfoV { peri_type: "icu"@, version: "ra8e1"@, block: "ICU"@ })
    } else if pat_matches("R7FA8M1.*"@, chip) && pat_matches("ICU"@, inst) {
        Some(PeriInfoV { peri_type: "icu"@, version: "ra8m1"@, block: "ICU"@ })
    } else if pat_matches("R7FA8T1.*"@, chip) && pat_matches("ICU"@, inst) {
        Some(PeriInfoV { peri_type: "icu"@, version: "ra8t1"@, block: "ICU"@ })
    // RKA8 family
    } else if pat_matches("R7KA8[DMP].*"@, chip) && pat_matches("ICU"@, inst) {
        Some(PeriInfoV { peri_type: "icu"@, version: "rka8d2"@, block: "ICU"@ })
    } else if pat_matches("R7KA8T.*"@, chip) && pat_matches("ICU"@, inst) {
        Some(PeriInfoV { peri_type: "icu"@, version: "rka8t2"@, block: "ICU"@ })
    // System mappings
    } else if pat_matches("R7FA[46][ELMT].*"@, chip) && pat_matches("MSTP"@, inst) {
        Some(PeriInfoV { peri_type: "mstp"@, version: "v2"@, block: "MSTP"@ })
    } else if pat_matches("R7FA8.*"@, chip) && pat_matches("MSTP"@, inst) {
        Some(PeriInfoV { peri_type: "mstp"@, version: "v2"@, block: "MSTP"@ })
    } else if pat_matches("R7KA8.*"@, chip) && pat_matches("MSTP"@, inst) {
        Some(PeriInfoV { peri_type: "mstp"@, version: "v2"@, block: "MSTP"@ })
    } else if pat_matches("R7FA2.*"@, chip) && pat_matches("MSTP"@, inst) {
        Some(PeriInfoV { peri_type: "mstp"@, version: "v3"@, block: "MSTP"@ })
    } else if pat_matches(".*"@, chip) && pat_matches("MSTP"@, inst) {
        Some(PeriInfoV { peri_type: "mstp"@, version: "v1"@, block: "MSTP"@ })
    } else {
        None
    }
}

#[verifier::rlimit(50)]
fn resolve_part8(chip: &Vec<char>, inst: &Vec<char>) -> (r: Option<PeriInfo>)
    ensures
        match r {
            Some(i) => spec_resolve_part8(chip@, inst@) == Some(i@),
            None => spec_resolve_part8(chip@, inst@) is None,
        },
{
    if rule_hit(chip, inst, "R7FA6T1.*", "ICU") {
        Some(PeriInfo { peri_type: "icu", version: "ra6m1", block: "ICU" })  // same as RA6M1
    } else if rule_hit(chip, inst, "R7FA6T2.*", "ICU") {
        Some(PeriInfo { peri_type: "icu", version: "ra6t2", block: "ICU" })
    } else if rule_hit(chip, inst, "R7FA6T3.*", "ICU") {
        Some(PeriInfo { peri_type: "icu", version: "ra6t3", block: "ICU" })
    // RA8 family
    } else if rule_hit(chip, inst, "R7FA8D1.*", "ICU") {
        Some(PeriInfo { peri_type: "icu", version: "ra8d1", block: "ICU" })
    } else if rule_hit(chip, inst, "R7FA8E.*", "ICU") {
        Some(PeriInfo { peri_type: "icu", version: "ra8e1", block: "ICU" })
    } else if rule_hit(chip, inst, "R7FA8M1.*", "ICU") {
        Some(PeriInfo { peri_type: "icu", version: "ra8m1", block: "ICU" })
    } else if rule_hit(chip, inst, "R7FA8T1.*", "ICU") {
        Some(PeriInfo { peri_type: "icu", version: "ra8t1", block: "ICU" })
    // RKA8 family
    } else if rule_hit(chip, inst, "R7KA8[DMP].*", "ICU") {
        Some(PeriInfo { peri_type: "icu", version: "rka8d2", block: "ICU" })
    } else if rule_hit(chip, inst, "R7KA8T.*", "ICU") {
        Some(PeriInfo { peri_type: "icu", version: "rka8t2", block: "ICU" })
    // System mappings
    } else if rule_hit(chip, inst, "R7FA[46][ELMT].*", "MSTP") {
        Some(PeriInfo { peri_type: "mstp", version: "v2", block: "MSTP" })
    } else if rule_hit(chip, inst, "R7FA8.*", "MSTP") {
        Some(PeriInfo { peri_type: "mstp", version: "v2", block: "MSTP" })
    } else if rule_hit(chip, inst, "R7KA8.*", "MSTP") {
        Some(PeriInfo { peri_type: "mstp", version: "v2", block: "MSTP" })
    } else if rule_hit(chip, inst, "R7FA2.*", "MSTP") {
        Some(PeriInfo { peri_type: "mstp", version: "v3", block: "MSTP" })
    } else if rule_hit(chip, inst, ".*", "MSTP") {
        Some(PeriInfo { peri_type: "mstp", version: "v1", block: "MSTP" })
    } else {
        None
    }
}

/// Rules for `R7FA0.*:SYSC` through `R7FA4M3.*:SYSC`,
/// in declaration order.
pub open spec fn spec_resolve_part9(chip: Seq<char>, inst: Seq<char>) -> Option<PeriInfoV> {
    // SYSC mappings (System Control)
    // RA0 family - all share same structure
    if pat_matches("R7FA0.*"@, chip) && pat_matches("SYSC"@, inst) {
        Some(PeriInfoV { peri_type: "sysc"@, version: "ra0"@, block: "SYSC"@ })
    // RA2 family
    } else if pat_matches("R7FA2A1.*"@, chip) && pat_matches("SYSC"@, inst) {
        Some(PeriInfoV { peri_type: "sysc"@, version: "ra2a1"@, block: "SYSC"@ })
    } else if pat_matches("R7FA2A2.*"@, chip) && pat_matches("SYSC"@, inst) {
        Some(PeriInfoV { peri_type: "sysc"@, version: "ra2a2"@, block: "SYSC"@ })
    } else if pat_matches("R7FA2E1.*"@, chip) && pat_matches("SYSC"@, inst) {
        Some(PeriInfoV { peri_type: "sysc"@, version: "ra2e1"@, block: "SYSC"@ })
    } else if pat_matches("R7FA2E2.*"@, chip) && pat_matches("SYSC"@, inst) {
        Some(PeriInfoV { peri_type: "sysc"@, version: "ra2e2"@, block: "SYSC"@ })
    } else if pat_matches("R7FA2E3.*"@, chip) && pat_matches("SYSC"@, inst) {
        Some(PeriInfoV { peri_type: "sysc"@, version: "ra2e1"@, block: "SYSC"@ })  // same as RA2E1
    } else if pat_matches("R7FA2L1.*"@, chip) && pat_matches("SYSC"@, inst) {
        Some(PeriInfoV { peri_type: "sysc"@, version: "ra2l1"@, block: "SYSC"@ })
    } else if pat_matches("R7FA2L2.*"@, chip) && pat_matches("SYSC"@, inst) {
        Some(PeriInfoV { peri_type: "sysc"@, version: "ra2e1"@, block: "SYSC"@ })  // same as RA2E1
    } else if pat_matches("R7FA2T1.*"@, chip) && pat_matches("SYSC"@, inst) {
        Some(PeriInfoV { peri_type: "sysc"@, version: "ra2t1"@, block: "SYSC"@ })
    // RA4 family
    } else if pat_matches("R7FA4C1.*"@, chip) && pat_matches("SYSC"@, inst) {
        Some(PeriInfoV { peri_type: "sysc"@, version: "ra4c1"@, block: "SYSC"@ })
    } else if pat_matches("R7FA4E1.*"@, chip) && pat_matches("SYSC"@, inst) {
        Some(PeriInfoV { peri_type: "sysc"@, version: "ra4e1"@, block: "SYSC"@ })
    } else if pat_matches("R7FA4E2.*"@, chip) && pat_matches("SYSC"@, inst) {
        Some(PeriInfoV { peri_type: "sysc"@, version: "ra4e2"@, block: "SYSC"@ })
    } else if pat_matches("R7FA4L1.*"@, chip) && pat_matches("SYSC"@, inst) {
        Some(PeriInfoV { peri_type: "sysc"@, version: "ra4l1"@, block: "SYSC"@ })
    } else if pat_matches("R7FA4M1.*"@, chip) && pat_matches("SYSC"@, inst) {
        Some(PeriInfoV { peri_type: "sysc"@, version: "ra4m1"@, block: "SYSC"@ })
    } else if pat_matches("R7FA4M2.*"@, chip) && pat_matches("SYSC"@, inst) {
        Some(PeriInfoV { peri_type: "sysc"@, version: "ra4m2"@, block: "SYSC"@ })
    } else if pat_matches("R7FA4M3.*"@, chip) && pat_matches("SYSC"@, inst) {
        Some(PeriInfoV { peri_type: "sysc"@, version: "ra4m3"@, block: "SYSC"@ })
    } else {
        None
    }
}

#[verifier::rlimit(50)]
fn resolve_part9(chip: &Vec<char>, inst: &Vec<char>) -> (r: Option<PeriInfo>)
    ensures
        match r {
            Some(i) => spec_resolve_part9(chip@, inst@) == Some(i@),
            None => spec_resolve_part9(chip@, inst@) is None,
        },
{
    // SYSC mappings (System Control)
    // RA0 family - all share same structure
    if rule_hit(chip, inst, "R7FA0.*", "SYSC") {
        Some(PeriInfo { peri_type: "sysc", version: "ra0", block: "SYSC" })
    // RA2 family
    } else if rule_hit(chip, inst, "R7FA2A1.*", "SYSC") {
        Some(PeriInfo { peri_type: "sysc", version: "ra2a1", block: "SYSC" })
    } else if rule_hit(chip, inst, "R7FA2A2.*", "SYSC") {
        Some(PeriInfo { peri_type: "sysc", version: "ra2a2", block: "SYSC" })
    } else if rule_hit(chip, inst, "R7FA2E1.*", "SYSC") {
        Some(PeriInfo { peri_type: "sysc", version: "ra2e1", block: "SYSC" })
    } else if rule_hit(chip, inst, "R7FA2E2.*", "SYSC") {
        Some(PeriInfo { peri_type: "sysc", version: "ra2e2", block: "SYSC" })
    } else if rule_hit(chip, inst, "R7FA2E3.*", "SYSC") {
        Some(PeriInfo { peri_type: "sysc", version: "ra2e1", block: "SYSC" })  // same as RA2E1
    } else if rule_hit(chip, inst, "R7FA2L1.*", "SYSC") {
        Some(PeriInfo { peri_type: "sysc", version: "ra2l1", block: "SYSC" })
    } else if rule_hit(chip, inst, "R7FA2L2.*", "SYSC") {
        Some(PeriInfo { peri_type: "sysc", version: "ra2e1", block: "SYSC" })  // same as RA2E1
    } else if rule_hit(chip, inst, "R7FA2T1.*", "SYSC") {
        Some(PeriInfo { peri_type: "sysc", version: "ra2t1", block: "SYSC" })
    // RA4 family
    } else if rule_hit(chip, inst, "R7FA4C1.*", "SYSC") {
        Some(PeriInfo { peri_type: "sysc", version: "ra4c1", block: "SYSC" })
    } else if rule_hit(chip, inst, "R7FA4E1.*", "SYSC") {
        Some(PeriInfo { peri_type: "sysc", version: "ra4e1", block: "SYSC" })
    } else if rule_hit(chip, inst, "R7FA4E2.*", "SYSC") {
        Some(PeriInfo { peri_type: "sysc", version: "ra4e2", block: "SYSC" })
    } else if rule_hit(chip, inst, "R7FA4L1.*", "SYSC") {
        Some(PeriInfo { peri_type: "sysc", version: "ra4l1", block: "SYSC" })
    } else if rule_hit(chip, inst, "R7FA4M1.*", "SYSC") {
        Some(PeriInfo { peri_type: "sysc", version: "ra4m1", block: "SYSC" })
    } else if rule_hit(chip, inst, "R7FA4M2.*", "SYSC") {
        Some(PeriInfo { peri_type: "sysc", version: "ra4m2", block: "SYSC" })
    } else if rule_hit(chip, inst, "R7FA4M3.*", "SYSC") {
        Some(PeriInfo { peri_type: "sysc", version: "ra4m3", block: "SYSC" })
    } else {
        None
    }
}

/// Rules for `R7FA4T1.*:SYSC` through `R7FA6T3.*:SYSC`,
/// in declaration order.
pub open spec fn spec_resolve_part10(chip: Seq<char>, inst: Seq<char>) -> Option<PeriInfoV> {
    if pat_matches("R7FA4T1.*"@, chip) && pat_matches("SYSC"@, inst) {
        Some(PeriInfoV { peri_type: "sysc"@, version: "ra4t1"@, block: "SYSC"@ })
    } else if pat_matches("R7FA4W1.*"@, chip) && pat_matches("SYSC"@, inst) {
        Some(PeriInfoV { peri_type: "sysc"@, version: "ra4w1"@, block: "SYSC"@ })
    // RA6 family
    } else if pat_matches("R7FA6E1.*"@, chip) && pat_matches("SYSC"@, inst) {
        Some(PeriInfoV { peri_type: "sysc"@, version: "ra6e1"@, block: "SYSC"@ })
    } else if pat_matches("R7FA6E2.*"@, chip) && pat_matches("SYSC"@, inst) {
        Some(PeriInfoV { peri_type: "sysc"@, version: "ra4e2"@, block: "SYSC"@ })  // same as RA4E2
    } else if pat_matches("R7FA6M1.*"@, chip) && pat_matches("SYSC"@, inst) {
        Some(PeriInfoV { peri_type: "sysc"@, version: "ra6m1"@, block: "SYSC"@ })
    } else if pat_matches("R7FA6M2.*"@, chip) && pat_matches("SYSC"@, inst) {
        Some(PeriInfoV { peri_type: "sysc"@, version: "ra6m2"@, block: "SYSC"@ })
    } else if pat_matches("R7FA6M3.*"@, chip) && pat_matches("SYSC"@, inst) {
        Some(PeriInfoV { peri_type: "sysc"@, version: "ra6m2"@, block: "SYSC"@ })  // same as RA6M2
    } else if pat_matches("R7FA6M4.*"@, chip) && pat_matches("SYSC"@, inst) {
        Some(PeriInfoV { peri_type: "sysc"@, version: "ra6m4"@, block: "SYSC"@ })
    } else if pat_matches("R7FA6M5.*"@, chip) && pat_matches("SYSC"@, inst) {
        Some(PeriInfoV { peri_type: "sysc"@, version: "ra6m5"@, block: "SYSC"@ })
    } else if pat_matches("R7FA6T1.*"@, chip) && pat_matches("SYSC"@, inst) {
        Some(PeriInfoV { peri_type: "sysc"@, version: "ra6t1"@, block: "SYSC"@ })
    } else if pat_matches("R7FA6T2.*"@, chip) && pat_matches("SYSC"@, inst) {
        Some(PeriInfoV { peri_type: "sysc"@, version: "ra6t2"@, block: "SYSC"@ })
    } else if pat_matches("R7FA6T3.*"@, chip) && pat_matches("SYSC"@, inst) {
        Some(PeriInfoV { peri_type: "sysc"@, version: "ra6t3"@, block: "SYSC"@ })
    } else {
        None
    }
}

#[verifier::rlimit(50)]
fn resolve_part10(chip: &Vec<char>, inst: &Vec<char>) -> (r: Option<PeriInfo>)
    ensures
        match r {
            Some(i) => spec_resolve_part10(chip@, inst@) == Some(i@),
            None => spec_resolve_part10(chip@, inst@) is None,
        },
{
    if rule_hit(chip, inst, "R7FA4T1.*", "SYSC") {
        Some(PeriInfo { peri_type: "sysc", version: "ra4t1", block: "SYSC" })
    } else if rule_hit(chip, inst, "R7FA4W1.*", "SYSC") {
        Some(PeriInfo { peri_type: "sysc", version: "ra4w1", block: "SYSC" })
    // RA6 family
    } else if rule_hit(chip, inst, "R7FA6E1.*", "SYSC") {
        Some(PeriInfo { peri_type: "sysc", version: "ra6e1", block: "SYSC" })
    } else if rule_hit(chip, inst, "R7FA6E2.*", "SYSC") {
        Some(PeriInfo { peri_type: "sysc", version: "ra4e2", block: "SYSC" })  // same as RA4E2
    } else if rule_hit(chip, inst, "R7FA6M1.*", "SYSC") {
        Some(PeriInfo { peri_type: "sysc", version: "ra6m1", block: "SYSC" })
    } else if rule_hit(chip, inst, "R7FA6M2.*", "SYSC") {
        Some(PeriInfo { peri_type: "sysc", version: "ra6m2", block: "SYSC" })
    } else if rule_hit(chip, inst, "R7FA6M3.*", "SYSC") {
        Some(PeriInfo { peri_type: "sysc", version: "ra6m2", block: "SYSC" })  // same as RA6M2
    } else if rule_hit(chip, inst, "R7FA6M4.*", "SYSC") {
        Some(PeriInfo { peri_type: "sysc", version: "ra6m4", block: "SYSC" })
    } else if rule_hit(chip, inst, "R7FA6M5.*", "SYSC") {
        Some(PeriInfo { peri_type: "sysc", version: "ra6m5", block: "SYSC" })
    } else if rule_hit(chip, inst, "R7FA6T1.*", "SYSC") {
        Some(PeriInfo { peri_type: "sysc", version: "ra6t1", block: "SYSC" })
    } else if rule_hit(chip, inst, "R7FA6T2.*", "SYSC") {
        Some(PeriInfo { peri_type: "sysc", version: "ra6t2", block: "SYSC" })
    } else if rule_hit(chip, inst, "R7FA6T3.*", "SYSC") {
        Some(PeriInfo { peri_type: "sysc", version: "ra6t3", block: "SYSC" })
    } else {
        None
    }
}

/// Rules for `R7FA8D1.*:SYSC` through `R7KA8T2.*:SYSC`,
/// in declaration order.
pub open spec fn spec_resolve_part11(chip: Seq<char>, inst: Seq<char>) -> Option<PeriInfoV> {
    // RA8 family
    if pat_matches("R7FA8D1.*"@, chip) && pat_matches("SYSC"@, inst) {
        Some(PeriInfoV { peri_type: "sysc"@, version: "ra8d1"@, block: "SYSC"@ })
    } else if pat_matches("R7FA8E1.*"@, chip) && pat_matches("SYSC"@, inst) {
        Some(PeriInfoV { peri_type: "sysc"@, version: "ra8e1"@, block: "SYSC"@ })
    } else if pat_matches("R7FA8E2.*"@, chip) && pat_matches("SYSC"@, inst) {
        Some(PeriInfoV { peri_type: "sysc"@, version: "ra8e2"@, block: "SYSC"@ })
    } else if pat_matches("R7FA8M1.*"@, chip) && pat_matches("SYSC"@, inst) {
        Some(PeriInfoV { peri_type: "sysc"@, version: "ra8m1"@, block: "SYSC"@ })
    } else if pat_matches("R7FA8T1.*"@, chip) && pat_matches("SYSC"@, inst) {
        Some(PeriInfoV { peri_type: "sysc"@, version: "ra8t1"@, block: "SYSC"@ })
    // RKA8 family
    } else if pat_matches("R7KA8D2.*"@, chip) && pat_matches("SYSC"@, inst) {
        Some(PeriInfoV { peri_type: "sysc"@, version: "rka8d2"@, block: "SYSC"@ })
    } else if pat_matches("R7KA8M2.*"@, chip) && pat_matches("SYSC"@, inst) {
        Some(PeriInfoV { peri_type: "sysc"@, version: "rka8m2"@, block: "SYSC"@ })
    } else if pat_matches("R7KA8P1.*"@, chip) && pat_matches("SYSC"@, inst) {
        Some(PeriInfoV { peri_type: "sysc"@, version: "rka8p1"@, block: "SYSC"@ })
    } else if pat_matches("R7KA8T2.*"@, chip) && pat_matches("SYSC"@, inst) {
        Some(PeriInfoV { peri_type: "sysc"@, version: "rka8t2"@, block: "SYSC"@ })
    } else {
        None
    }
}

#[verifier::rlimit(50)]
fn resolve_part11(chip: &Vec<char>, inst: &Vec<char>) -> (r: Option<PeriInfo>)
    ensures
        match r {
            Some(i) => spec_resolve_part11(chip@, inst@) == Some(i@),
            None => spec_resolve_part11(chip@, inst@) is None,
        },
{
    // RA8 family
    if rule_hit(chip, inst, "R7FA8D1.*", "SYSC") {
        Some(PeriInfo { peri_type: "sysc", version: "ra8d1", block: "SYSC" })
    } else if rule_hit(chip, inst, "R7FA8E1.*", "SYSC") {
        Some(PeriInfo { peri_type: "sysc", version: "ra8e1", block: "SYSC" })
    } else if rule_hit(chip, inst, "R7FA8E2.*", "SYSC") {
        Some(PeriInfo { peri_type: "sysc", version: "ra8e2", block: "SYSC" })
    } else if rule_hit(chip, inst, "R7FA8M1.*", "SYSC") {
        Some(PeriInfo { peri_type: "sysc", version: "ra8m1", block: "SYSC" })
    } else if rule_hit(chip, inst, "R7FA8T1.*", "SYSC") {
        Some(PeriInfo { peri_type: "sysc", version: "ra8t1", block: "SYSC" })
    // RKA8 family
    } else if rule_hit(chip, inst, "R7KA8D2.*", "SYSC") {
        Some(PeriInfo { peri_type: "sysc", version: "rka8d2", block: "SYSC" })
    } else if rule_hit(chip, inst, "R7KA8M2.*", "SYSC") {
        Some(PeriInfo { peri_type: "sysc", version: "rka8m2", block: "SYSC" })
    } else if rule_hit(chip, inst, "R7KA8P1.*", "SYSC") {
        Some(PeriInfo { peri_type: "sysc", version: "rka8p1", block: "SYSC" })
    } else if rule_hit(chip, inst, "R7KA8T2.*", "SYSC") {
        Some(PeriInfo { peri_type: "sysc", version: "rka8t2", block: "SYSC" })
    } else {
        None
    }
}

/// The full mapping: the parts above, consulted in declaration order;
/// the first rule whose two patterns both match decides.
pub open spec fn spec_resolve(chip: Seq<char>, inst: Seq<char>) -> Option<PeriInfoV> {
    if spec_resolve_part1(chip, inst) is Some {
        spec_resolve_part1(chip, inst)
    } else if spec_resolve_part2(chip, inst) is Some {
        spec_resolve_part2(chip, inst)
    } else if spec_resolve_part3(chip, inst) is Some {
        spec_resolve_part3(chip, inst)
    } else if spec_resolve_part4(chip, inst) is Some {
        spec_resolve_part4(chip, inst)
    } else if spec_resolve_part5(chip, inst) is Some {
        spec_resolve_part5(chip, inst)
    } else if spec_resolve_part6(chip, inst) is Some {
        spec_resolve_part6(chip, inst)
    } else if spec_resolve_part7(chip, inst) is Some {
        spec_resolve_part7(chip, inst)
    } else if spec_resolve_part8(chip, inst) is Some {
        spec_resolve_part8(chip, inst)
    } else if spec_resolve_part9(chip, inst) is Some {
        spec_resolve_part9(chip, inst)
    } else if spec_resolve_part10(chip, inst) is Some {
        spec_resolve_part10(chip, inst)
    } else if spec_resolve_part11(chip, inst) is Some {
        spec_resolve_part11(chip, inst)
    } else {
        None
    }
}

/// Look up the register-block mapping for a peripheral instance of a
/// chip: the first rule, in declaration order, whose chip pattern and
/// instance pattern both match decides; no match means the instance has
/// no known register block.
pub fn resolve(chip_name: &str, instance_name: &str) -> (r: Option<PeriInfo>)
    ensures
        match r {
            Some(i) => spec_resolve(chip_name@, instance_name@) == Some(i@),
            None => spec_resolve(chip_name@, instance_name@) is None,
        },
{
    let chip = str_chars(chip_name);
    let inst = str_chars(instance_name);
    if let Some(i) = resolve_part1(&chip, &inst) {
        return Some(i);
    }
    if let Some(i) = resolve_part2(&chip, &inst) {
        return Some(i);
    }
    if let Some(i) = resolve_part3(&chip, &inst) {
        return Some(i);
    }
    if let Some(i) = resolve_part4(&chip, &inst) {
        return Some(i);
    }
    if let Some(i) = resolve_part5(&chip, &inst) {
        return Some(i);
    }
    if let Some(i) = resolve_part6(&chip, &inst) {
        return Some(i);
    }
    if let Some(i) = resolve_part7(&chip, &inst) {
        return Some(i);
    }
    if let Some(i) = resolve_part8(&chip, &inst) {
        return Some(i);
    }
    if let Some(i) = resolve_part9(&chip, &inst) {
        return Some(i);
    }
    if let Some(i) = resolve_part10(&chip, &inst) {
        return Some(i);
    }
    if let Some(i) = resolve_part11(&chip, &inst) {
        return Some(i);
    }
    None
}

} // verus!
