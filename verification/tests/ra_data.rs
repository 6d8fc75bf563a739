use ra_data::generate::{
    assemble, canonical_name, family_dir_name, find_interrupts_for_peripheral,
};
use ra_data::interrupts::{collect_interrupts, parse_interrupt_name, RawEvent};
use ra_data::mstp::{
    compute_agt_mstp, compute_gpt_mstp, compute_mstp, compute_poeg_mstp, get_mstp_for_peripheral,
    parse_peripheral_name, BitDir, MstpRule, RaFamily,
};
use ra_data::perimap::resolve;
use ra_data::pinmapping::{Pin as PmPin, Package as PmPackage, PinMappings};
use ra_data::rzone::{Memory, ParsedRzone, Peripheral as RawPeripheral, Rzones, RzonesParsed};
use ra_data::types::Interrupt;

fn event(name: &str, value: u32, description: &str) -> RawEvent {
    RawEvent {
        name: name.to_string(),
        value,
        description: description.to_string(),
    }
}

fn rzone_with(peripherals: Vec<RawPeripheral>) -> ParsedRzone {
    ParsedRzone {
        family: "R7FA6M1AD".to_string(),
        core: "CM4".to_string(),
        interrupt_count: 96,
        memories: vec![Memory {
            name: "FLASH".to_string(),
            kind: "ROM".to_string(),
            address: 0,
            size: 0x8_0000,
        }],
        peripherals,
    }
}

fn no_pins() -> PinMappings {
    PinMappings { mappings: Vec::new() }
}

// ---------- name parser ----------

#[test]
fn parse_plain_channel() {
    assert_eq!(parse_peripheral_name("SCI0"), ("SCI", Some(0)));
    assert_eq!(parse_peripheral_name("SCI15"), ("SCI", Some(15)));
    assert_eq!(parse_peripheral_name("IIC0"), ("IIC", Some(0)));
}

#[test]
fn parse_is_case_insensitive() {
    assert_eq!(parse_peripheral_name("poeg2"), ("POEG", Some(2)));
    assert_eq!(parse_peripheral_name("sci3"), ("SCI", Some(3)));
}

#[test]
fn parse_gpt_bit_width_infix() {
    assert_eq!(parse_peripheral_name("GPT320"), ("GPT", Some(0)));
    assert_eq!(parse_peripheral_name("GPT162"), ("GPT", Some(2)));
    assert_eq!(parse_peripheral_name("GPT32"), ("GPT", Some(32)));
    assert_eq!(parse_peripheral_name("GPT8"), ("GPT", Some(8)));
    assert_eq!(parse_peripheral_name("GPT80"), ("GPT", Some(0)));
    assert_eq!(parse_peripheral_name("GPT12"), ("GPT", Some(12)));
}

#[test]
fn parse_adc_bit_width_infix() {
    assert_eq!(parse_peripheral_name("ADC140"), ("ADC", Some(0)));
    assert_eq!(parse_peripheral_name("ADC141"), ("ADC", Some(1)));
    assert_eq!(parse_peripheral_name("ADC1"), ("ADC", Some(1)));
    // two digits do not fit the infix form: the generic rule answers
    assert_eq!(parse_peripheral_name("ADC30"), ("ADC", Some(30)));
}

#[test]
fn parse_aliases() {
    assert_eq!(parse_peripheral_name("SSIE0"), ("SSI", Some(0)));
    assert_eq!(parse_peripheral_name("SSI1"), ("SSI", Some(1)));
    assert_eq!(parse_peripheral_name("RIIC2"), ("IIC", Some(2)));
    assert_eq!(parse_peripheral_name("AGTW3"), ("AGT", Some(3)));
    assert_eq!(parse_peripheral_name("ETHERC0"), ("ETHER", Some(0)));
    assert_eq!(parse_peripheral_name("EDMAC0"), ("ETHER", Some(0)));
    assert_eq!(parse_peripheral_name("ETHERC"), ("ETHER", Some(0)));
}

#[test]
fn parse_dac_widths() {
    assert_eq!(parse_peripheral_name("DAC12"), ("DAC", Some(0)));
    assert_eq!(parse_peripheral_name("DAC8"), ("DAC8", None));
    assert_eq!(parse_peripheral_name("DAC5"), ("DAC", Some(5)));
}

#[test]
fn parse_unknown_names_fall_back() {
    assert_eq!(parse_peripheral_name("RTC"), ("RTC", None));
    assert_eq!(parse_peripheral_name("XYZ3"), ("XYZ3", None));
    assert_eq!(parse_peripheral_name("PORT4"), ("PORT4", None));
    assert_eq!(parse_peripheral_name(""), ("", None));
    // an over-large channel cannot be represented
    assert_eq!(parse_peripheral_name("SCI4294967296"), ("SCI4294967296", None));
}

// ---------- MSTP engine ----------

#[test]
fn minus_rule_saturates_at_zero() {
    // base bit 31, channel far past it: the bit saturates, never wraps
    let r = compute_mstp("SCI", 40, "R7FA6M1AD").unwrap();
    assert_eq!(r.register, "MSTPCRB");
    assert_eq!(r.bit, 0);
    let rule = MstpRule::new("MSTPCRB", 2, BitDir::Minus);
    assert_eq!(rule.compute_bit(7), 0);
    assert_eq!(rule.compute_bit(2), 0);
    assert_eq!(rule.compute_bit(1), 1);
}

#[test]
fn plus_and_fixed_rules() {
    let r = compute_mstp("SAU", 5, "R7FA0E1").unwrap();
    assert_eq!((r.register.as_str(), r.bit), ("MSTPCRB", 11));
    let r = compute_mstp("RTC", 3, "R7FA6M1AD").unwrap();
    assert_eq!((r.register.as_str(), r.bit), ("MSTPCRD", 23));
}

#[test]
fn unknown_type_has_no_gating() {
    assert!(compute_mstp("NOSUCH", 0, "R7FA6M1AD").is_none());
}

#[test]
fn family_classification() {
    assert_eq!(RaFamily::from_chip_name("R7FA2L1AB"), RaFamily::Ra2);
    assert_eq!(RaFamily::from_chip_name("R7FA4M1AB"), RaFamily::Ra4);
    assert_eq!(RaFamily::from_chip_name("R7FA6M1AD"), RaFamily::Ra6);
    assert_eq!(RaFamily::from_chip_name("R7FA6T2BD"), RaFamily::Ra6t2);
    assert_eq!(RaFamily::from_chip_name("R7FA8M1AH"), RaFamily::Ra8);
    assert_eq!(RaFamily::from_chip_name("R7FA8D1BH"), RaFamily::Ra8Gen2);
    assert_eq!(RaFamily::from_chip_name("R7KA8P1KF"), RaFamily::Ra8Gen2);
    assert_eq!(RaFamily::from_chip_name("r7fa6m1ad"), RaFamily::Ra6);
    assert_eq!(RaFamily::from_chip_name("STM32F4"), RaFamily::Other);
}

#[test]
fn gpt_family_overrides() {
    // RA6: walking down from MSTPCRE bit 31
    let r = compute_gpt_mstp(2, RaFamily::Ra6).unwrap();
    assert_eq!((r.register.as_str(), r.bit), ("MSTPCRE", 29));
    // RA6T2: one fixed bit for all channels
    let r = compute_gpt_mstp(9, RaFamily::Ra6t2).unwrap();
    assert_eq!((r.register.as_str(), r.bit), ("MSTPCRE", 31));
    // RA8 Gen2: channels 4 through 9 share channel 4's bit
    let r = compute_gpt_mstp(7, RaFamily::Ra8Gen2).unwrap();
    assert_eq!((r.register.as_str(), r.bit), ("MSTPCRE", 27));
    let r = compute_gpt_mstp(3, RaFamily::Ra8Gen2).unwrap();
    assert_eq!((r.register.as_str(), r.bit), ("MSTPCRE", 28));
    // families without MSTPCRE
    let r = compute_gpt_mstp(2, RaFamily::Ra2).unwrap();
    assert_eq!((r.register.as_str(), r.bit), ("MSTPCRD", 6));
}

#[test]
fn agt_and_poeg_family_overrides() {
    let r = compute_agt_mstp(1, RaFamily::Ra8Gen2).unwrap();
    assert_eq!((r.register.as_str(), r.bit), ("MSTPCRD", 4));
    let r = compute_agt_mstp(1, RaFamily::Ra6).unwrap();
    assert_eq!((r.register.as_str(), r.bit), ("MSTPCRD", 2));
    let r = compute_poeg_mstp(2, RaFamily::Ra2).unwrap();
    assert_eq!((r.register.as_str(), r.bit), ("MSTPCRD", 14));
    let r = compute_poeg_mstp(2, RaFamily::Ra6).unwrap();
    assert_eq!((r.register.as_str(), r.bit), ("MSTPCRD", 12));
}

#[test]
fn adc_ra8gen2_override() {
    let r = compute_mstp("ADC", 1, "R7FA8D1BH").unwrap();
    assert_eq!((r.register.as_str(), r.bit), ("MSTPCRD", 20));
    let r = compute_mstp("ADC", 1, "R7FA6M1AD").unwrap();
    assert_eq!((r.register.as_str(), r.bit), ("MSTPCRD", 15));
}

#[test]
fn scenario_gpt0_on_ra6m1() {
    // end-to-end scenario A, gating half
    let r = get_mstp_for_peripheral("GPT0", "R7FA6M1AxxFB").unwrap();
    assert_eq!((r.register.as_str(), r.bit), ("MSTPCRE", 31));
}

#[test]
fn scenario_gpt3_on_ra6t2() {
    // end-to-end scenario B: fixed-bit family override
    assert_eq!(RaFamily::from_chip_name("R7FA6T2xxxxx"), RaFamily::Ra6t2);
    let r = get_mstp_for_peripheral("GPT3", "R7FA6T2xxxxx").unwrap();
    assert_eq!((r.register.as_str(), r.bit), ("MSTPCRE", 31));
}

#[test]
fn scenario_dac8() {
    // end-to-end scenario C
    assert_eq!(parse_peripheral_name("DAC8"), ("DAC8", None));
    let r = get_mstp_for_peripheral("DAC8", "R7FA2A1AB").unwrap();
    assert_eq!((r.register.as_str(), r.bit), ("MSTPCRD", 19));
}

// ---------- Perimap ----------

#[test]
fn perimap_first_match_wins() {
    // RA6M1 GPT0 hits the GPT32E rule, not the later plain GPT rules
    let info = resolve("R7FA6M1AxxFB", "GPT0").unwrap();
    assert_eq!((info.peri_type, info.version, info.block), ("gpt", "v1", "GPT32E"));
    let info = resolve("R7FA6M1AxxFB", "GPT8").unwrap();
    assert_eq!((info.peri_type, info.version, info.block), ("gpt", "v1", "GPT"));
}

#[test]
fn perimap_wildcard_fallbacks() {
    // PFS: RA0 gets v2, everything else the wildcard v1
    let info = resolve("R7FA0E1081", "PFS").unwrap();
    assert_eq!((info.peri_type, info.version), ("pfs", "v2"));
    let info = resolve("R7FA6M1AD", "PFS").unwrap();
    assert_eq!((info.peri_type, info.version), ("pfs", "v1"));
    // MSTP: RA2 gets v3, RA6 v2, RA0 the wildcard v1
    assert_eq!(resolve("R7FA2L1AB", "MSTP").unwrap().version, "v3");
    assert_eq!(resolve("R7FA6M4AF", "MSTP").unwrap().version, "v2");
    assert_eq!(resolve("R7FA0E1081", "MSTP").unwrap().version, "v1");
}

#[test]
fn perimap_alternation_is_anchored() {
    // GPT10 is not one of GPT(?:0|1|2|3): a single-digit alternative must
    // not match a two-digit channel
    assert!(resolve("R7FA4C1AB", "GPT10").is_none());
    // two-digit alternatives do match
    let info = resolve("R7FA8E1AB", "GPT10").unwrap();
    assert_eq!((info.peri_type, info.block), ("gpt", "GPT"));
    // the ICU table reuses versions across families
    assert_eq!(resolve("R7FA6M3AF", "ICU").unwrap().version, "ra6m2");
    assert_eq!(resolve("R7FA6M4AF", "ICU").unwrap().version, "ra4m3");
}

#[test]
fn mstp_rule_table_spot_checks() {
    let r = compute_mstp("IICA", 2, "R7FA0E1081").unwrap();
    assert_eq!((r.register.as_str(), r.bit), ("MSTPCRB", 12));
    let r = compute_mstp("DTC", 9, "R7FA6M1AD").unwrap();
    assert_eq!((r.register.as_str(), r.bit), ("MSTPCRA", 22));
    let r = compute_mstp("CEC", 1, "R7FA4L1AB").unwrap();
    assert_eq!((r.register.as_str(), r.bit), ("MSTPCRB", 3));
    let r = compute_mstp("ADC140", 5, "R7FA2A1AB").unwrap();
    assert_eq!((r.register.as_str(), r.bit), ("MSTPCRD", 16));
}

#[test]
fn perimap_rejects_unknown() {
    assert!(resolve("R7FA6M1AD", "SCI0").is_none());
    assert!(resolve("NOTACHIP", "GPT0").is_none());
}

#[test]
fn perimap_character_classes() {
    let info = resolve("R7FA2E3AB", "SYSC").unwrap();
    assert_eq!(info.version, "ra2e1");
    // R7FA4C1 misses the [ELMT] class and falls to the wildcard MSTP rule
    let info = resolve("R7FA4C1AB", "MSTP").unwrap();
    assert_eq!(info.version, "v1");
}

// ---------- interrupt linkage ----------

fn sci1_rxi() -> Interrupt {
    Interrupt {
        name: "SCI1_RXI".to_string(),
        value: 100,
        description: Some("receive data full".to_string()),
        irq_number: None,
        peripheral: Some("SCI".to_string()),
        channel: Some(1),
        signal: Some("RXI".to_string()),
    }
}

#[test]
fn scenario_sci1_rxi_links() {
    // end-to-end scenario D
    let parsed = parse_interrupt_name("SCI1_RXI");
    assert_eq!(parsed.0.as_deref(), Some("SCI"));
    assert_eq!(parsed.1, Some(1));
    assert_eq!(parsed.2.as_deref(), Some("RXI"));

    let (base, channel) = ra_data::generate::parse_peripheral_name("SCI1");
    assert_eq!((base.as_str(), channel), ("SCI", Some(1)));

    let candidates = vec![sci1_rxi()];
    let signals = find_interrupts_for_peripheral(&candidates, base.as_str(), channel);
    assert_eq!(signals, vec!["RXI".to_string()]);

    let peri = ra_data::types::Peripheral {
        name: "SCI1".to_string(),
        address: 0x4007_0020,
        peri_type: "sci".to_string(),
        version: "v1".to_string(),
        block: "SCI".to_string(),
        mstp: None,
        interrupts: signals,
    };
    assert_eq!(peri.name, "SCI1");
    assert_eq!(peri.interrupts, vec!["RXI".to_string()]);
}

#[test]
fn linker_filters_exactly() {
    let mut other = sci1_rxi();
    other.channel = Some(2);
    other.name = "SCI2_RXI".to_string();
    let mut no_signal = sci1_rxi();
    no_signal.signal = None;
    let candidates = vec![other, sci1_rxi(), no_signal];
    let signals = find_interrupts_for_peripheral(&candidates, "SCI", Some(1));
    assert_eq!(signals, vec!["RXI".to_string()]);
    assert!(find_interrupts_for_peripheral(&candidates, "SCI", None).is_empty());
}

#[test]
fn interrupt_name_forms() {
    let r = parse_interrupt_name("GPT0_COUNTER_OVERFLOW");
    assert_eq!(r.0.as_deref(), Some("GPT"));
    assert_eq!(r.1, Some(0));
    assert_eq!(r.2.as_deref(), Some("COUNTER_OVERFLOW"));
    let r = parse_interrupt_name("ICU_IRQ0");
    assert_eq!(r.0.as_deref(), Some("ICU"));
    assert_eq!(r.1, Some(0));
    assert_eq!(r.2.as_deref(), Some("IRQ"));
    let r = parse_interrupt_name("DTC_COMPLETE");
    assert_eq!(r.0.as_deref(), Some("DTC"));
    assert_eq!(r.1, None);
    assert_eq!(r.2.as_deref(), Some("COMPLETE"));
    assert_eq!(parse_interrupt_name("lowercase"), (None, None, None));
}

// ---------- grouped interrupts ----------

#[test]
fn group_digit_three_expands() {
    // a grouped descriptor with digit 3 yields exactly {3, 11, 19, 27}
    let icu = vec![event("SSI0_TXI_GROUP3", 7, "transmit")];
    let out = collect_interrupts(&icu, &Vec::new());
    assert_eq!(out.len(), 1);
    assert_eq!(out[0].name, "SSI0_TXI");
    assert_eq!(out[0].irq_number, Some(vec![3, 11, 19, 27]));
}

#[test]
fn group_merges_without_duplicates() {
    let icu = vec![
        event("SSI0_TXI_GROUP1", 7, "a"),
        event("SSI0_TXI_GROUP3", 7, "b"),
        event("SSI0_TXI_GROUP3", 7, "c"),
    ];
    let out = collect_interrupts(&icu, &Vec::new());
    assert_eq!(out.len(), 1);
    assert_eq!(out[0].name, "SSI0_TXI");
    assert_eq!(
        out[0].irq_number,
        Some(vec![1, 3, 9, 11, 17, 19, 25, 27])
    );
    assert_eq!(out[0].description.as_deref(), Some("a / b / c"));
}

#[test]
fn collect_skips_none_and_deprecated() {
    let icu = vec![
        event("NONE", 0, "nothing"),
        event("OLD_EVENT", 1, "DEPRECATED alias"),
        event("SCI1_RXI", 2, "receive"),
    ];
    let out = collect_interrupts(&icu, &Vec::new());
    assert_eq!(out.len(), 1);
    assert_eq!(out[0].name, "SCI1_RXI");
    assert_eq!(out[0].peripheral.as_deref(), Some("SCI"));
    assert_eq!(out[0].channel, Some(1));
    assert_eq!(out[0].signal.as_deref(), Some("RXI"));
}

#[test]
fn elc_pass_adds_only_new_names() {
    let icu = vec![event("SCI1_RXI", 2, "receive")];
    let elc = vec![
        event("SCI1_RXI", 9, "other value"),
        event("OPS_UVW_EDGE", 3, "edge event"),
        event("NONE", 0, "nothing"),
    ];
    let out = collect_interrupts(&icu, &elc);
    assert_eq!(out.len(), 2);
    // sorted by name
    assert_eq!(out[0].name, "OPS_UVW_EDGE");
    assert_eq!(out[1].name, "SCI1_RXI");
    assert_eq!(out[1].value, 2);
    assert_eq!(out[0].irq_number, None);
}

#[test]
fn group_suffix_needs_single_digit() {
    let icu = vec![event("A_GROUPX", 1, "no digit"), event("B_GROUP", 2, "bare")];
    let out = collect_interrupts(&icu, &Vec::new());
    assert_eq!(out.len(), 2);
    assert_eq!(out[0].name, "A_GROUPX");
    assert_eq!(out[0].irq_number, None);
    assert_eq!(out[1].name, "B_GROUP");
}

// ---------- aliases and the assembler ----------

fn catalog() -> Vec<String> {
    vec![
        "sysc_ra6m1".to_string(),
        "pfs_v1".to_string(),
        "gpt_v1".to_string(),
        "icu_ra6m1".to_string(),
    ]
}

#[test]
fn alias_spellings_resolve_identically() {
    let chip = "R7FA6M1AxxFB";
    let regs = catalog();
    let pins = no_pins();
    let fi: Vec<(String, Vec<Interrupt>)> = Vec::new();
    let mut triples = Vec::new();
    for spelling in ["SYSTEM", "SYSC"] {
        let parsed = rzone_with(vec![RawPeripheral {
            name: spelling.to_string(),
            address: 0x4001_E000,
        }]);
        let chip_rec = assemble(chip, &parsed, &pins, &fi, &regs);
        assert_eq!(chip_rec.peripherals.len(), 1);
        let p = &chip_rec.peripherals[0];
        assert_eq!(p.name, "SYSC");
        triples.push((p.peri_type.clone(), p.version.clone(), p.block.clone()));
    }
    assert_eq!(triples[0], triples[1]);

    let mut pfs_triples = Vec::new();
    for spelling in ["PFS_A", "PFS_B", "PFS_NS", "PFS"] {
        let parsed = rzone_with(vec![RawPeripheral {
            name: spelling.to_string(),
            address: 0x4004_0800,
        }]);
        let chip_rec = assemble(chip, &parsed, &pins, &fi, &regs);
        assert_eq!(chip_rec.peripherals.len(), 1);
        let p = &chip_rec.peripherals[0];
        assert_eq!(p.name, "PFS");
        pfs_triples.push((p.peri_type.clone(), p.version.clone(), p.block.clone()));
    }
    assert!(pfs_triples.iter().all(|t| *t == pfs_triples[0]));
}

#[test]
fn canonical_rewrite_is_idempotent() {
    for name in ["SYSTEM", "SYSC", "PFS_A", "PFS_B", "PFS_NS", "PFS", "GPT0", ""] {
        let once = canonical_name(name);
        let twice = canonical_name(once);
        assert_eq!(once, twice);
    }
}

#[test]
fn missing_register_block_drops_peripheral() {
    let chip = "R7FA6M1AxxFB";
    let parsed = rzone_with(vec![RawPeripheral {
        name: "GPT0".to_string(),
        address: 0x4007_8000,
    }]);
    let pins = no_pins();
    let fi: Vec<(String, Vec<Interrupt>)> = Vec::new();
    // catalog without gpt_v1: the instance is silently dropped
    let regs = vec!["sysc_ra6m1".to_string()];
    let chip_rec = assemble(chip, &parsed, &pins, &fi, &regs);
    assert!(chip_rec.peripherals.is_empty());
}

#[test]
fn scenario_assemble_gpt0_on_ra6m1() {
    // end-to-end scenario A
    let chip = "R7FA6M1AxxFB";
    let parsed = rzone_with(vec![RawPeripheral {
        name: "GPT0".to_string(),
        address: 0x4007_8000,
    }]);
    let pins = no_pins();
    let fi = vec![(
        "ra6m1ad".to_string(),
        vec![Interrupt {
            name: "GPT0_COUNTER_OVERFLOW".to_string(),
            value: 11,
            description: None,
            irq_number: None,
            peripheral: Some("GPT".to_string()),
            channel: Some(0),
            signal: Some("COUNTER_OVERFLOW".to_string()),
        }],
    )];
    let chip_rec = assemble(chip, &parsed, &pins, &fi, &catalog());
    assert_eq!(chip_rec.name, "R7FA6M1AxxFB");
    assert_eq!(chip_rec.family, "R7FA6M1AD");
    assert_eq!(chip_rec.core, "CM4");
    assert_eq!(chip_rec.interrupt_count, 96);
    assert_eq!(chip_rec.memory.len(), 1);
    assert_eq!(chip_rec.peripherals.len(), 1);
    let p = &chip_rec.peripherals[0];
    assert_eq!(p.name, "GPT0");
    assert_eq!(p.address, 0x4007_8000);
    assert_eq!(p.peri_type, "gpt");
    assert_eq!(p.version, "v1");
    assert_eq!(p.block, "GPT32E");
    let mstp = p.mstp.as_ref().unwrap();
    assert_eq!((mstp.register.as_str(), mstp.bit), ("MSTPCRE", 31));
    // the family directory "ra6m1ad" carries the interrupt table
    assert_eq!(chip_rec.interrupts.len(), 1);
    assert_eq!(p.interrupts, vec!["COUNTER_OVERFLOW".to_string()]);
}

#[test]
fn assemble_is_deterministic() {
    let chip = "R7FA6M1AxxFB";
    let parsed = rzone_with(vec![
        RawPeripheral { name: "GPT0".to_string(), address: 0x4007_8000 },
        RawPeripheral { name: "SYSTEM".to_string(), address: 0x4001_E000 },
    ]);
    let pins = PinMappings {
        mappings: vec![(
            "R7FA6M1AxxFB".to_string(),
            PmPackage {
                name: "LQFP100".to_string(),
                pins: vec![PmPin {
                    position: "1".to_string(),
                    signals: vec!["p000".to_string(), "VCC".to_string()],
                }],
            },
        )],
    };
    let fi: Vec<(String, Vec<Interrupt>)> = Vec::new();
    let regs = catalog();
    let a = assemble(chip, &parsed, &pins, &fi, &regs);
    let b = assemble(chip, &parsed, &pins, &fi, &regs);
    assert_eq!(a, b);
}

#[test]
fn packages_and_pin_names() {
    let chip = "R7FA6M1AxxFB";
    let parsed = rzone_with(Vec::new());
    let pins = PinMappings {
        mappings: vec![
            (
                "R7FA6M1AxxFA".to_string(),
                PmPackage { name: "WRONG".to_string(), pins: Vec::new() },
            ),
            (
                "R7FA6M1AxxFB".to_string(),
                PmPackage {
                    name: "LQFP100".to_string(),
                    pins: vec![
                        PmPin {
                            position: "1".to_string(),
                            signals: vec!["p101".to_string(), "VCC".to_string()],
                        },
                        PmPin {
                            position: "2".to_string(),
                            signals: vec!["P000".to_string(), "p101".to_string()],
                        },
                    ],
                },
            ),
        ],
    };
    let fi: Vec<(String, Vec<Interrupt>)> = Vec::new();
    let chip_rec = assemble(chip, &parsed, &pins, &fi, &catalog());
    assert_eq!(chip_rec.packages.len(), 1);
    assert_eq!(chip_rec.packages[0].package, "LQFP100");
    assert_eq!(chip_rec.packages[0].chip, chip);
    // pin-looking signals, upper-cased, sorted, de-duplicated
    assert_eq!(chip_rec.pins, vec!["P000".to_string(), "P101".to_string()]);
}

#[test]
fn wildcard_pattern_matching() {
    let pm = PinMappings {
        mappings: vec![(
            "R7FA6M1AxxFB".to_string(),
            PmPackage { name: "LQFP100".to_string(), pins: Vec::new() },
        )],
    };
    assert!(pm.get_for_chip("R7FA6M1AD2FB").is_some());
    assert!(pm.get_for_chip("R7FA6M1ADXFB").is_some());
    assert!(pm.get_for_chip("R7FA6M1AD2FA").is_none());
    assert!(pm.get_for_chip("R7FA6M1AD2F").is_none());
}

#[test]
fn family_dir_prefix_swap() {
    assert_eq!(family_dir_name("R7FA6M1AD"), "ra6m1ad");
    assert_eq!(family_dir_name("R7KA8P1KF"), "ra8p1kf");
    assert_eq!(family_dir_name("RA6M1"), "ra6m1");
}

#[test]
fn rzones_wraps_parsed_entries() {
    let parsed = RzonesParsed(vec![
        ("R7FA2L1AB".to_string(), rzone_with(Vec::new())),
        ("R7FA6M1AD".to_string(), rzone_with(Vec::new())),
    ]);
    let (chips, rzones) = Rzones::parse(parsed);
    assert_eq!(chips, vec!["R7FA2L1AB".to_string(), "R7FA6M1AD".to_string()]);
    assert_eq!(rzones.rzones.len(), 2);
    assert_eq!(rzones.rzones[1].0, "R7FA6M1AD");
}
