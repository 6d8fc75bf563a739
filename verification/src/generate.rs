//! The chip-record assembler: for one chip it rewrites alias peripheral
//! names to their canonical spelling, consults the register mapping table,
//! keeps only instances whose register block exists in the catalog, attaches
//! module-stop gating, links interrupt signals, and collects the GPIO pin
//! names of the packages.  Everything here is pure; reading the vendor files
//! and writing the finished records out is the surrounding tooling's job.

use vstd::prelude::*;
use crate::mstp::{get_mstp_for_peripheral, spec_get_mstp};
use crate::perimap::{resolve, spec_resolve};
use crate::pinmapping::{spec_get_for_chip, PinMappings, PmPinV};
use crate::rzone::{ParsedRzone, ParsedRzoneV};
use crate::text::{
    chars_substring, chars_to_string, count_trailing_digits, digit_run, digits_val, insert_sorted,
    is_lower, is_upper, lemma_trailing_digits, lower, lower_char_exec, parse_digits,
    spec_insert_sorted, starts_with, str_chars, str_eq, trailing_digits, vec_starts_with,
};
use crate::types::{
    Chip, ChipV, Interrupt, InterruptV, Memory, Mstp, MstpV, Package, PackageV, Peripheral,
    PeripheralV, Pin, PinV,
};

verus! {

/// The canonical spelling of peripheral names that the vendor sources spell
/// in more than one way: the secondary system-control block name and the
/// pin-function-select variants collapse to one name each.
pub open spec fn spec_canonical(name: Seq<char>) -> Seq<char> {
    if name == "SYSTEM"@ {
        "SYSC"@
    } else if name == "PFS_A"@ || name == "PFS_B"@ || name == "PFS_NS"@ {
        "PFS"@
    } else {
        name
    }
}

/// Rewrite an alias peripheral name to its canonical spelling.
pub fn canonical_name<'a>(name: &'a str) -> (r: &'a str)
    ensures
        r@ == spec_canonical(name@),
{
    if str_eq(name, "SYSTEM") {
        "SYSC"
    } else if str_eq(name, "PFS_A") || str_eq(name, "PFS_B") || str_eq(name, "PFS_NS") {
        "PFS"
    } else {
        name
    }
}

/// Rewriting a canonical name again changes nothing: the rewrite is
/// idempotent.
pub proof fn lemma_canonical_idempotent(name: Seq<char>)
    ensures
        spec_canonical(spec_canonical(name)) == spec_canonical(name),
{
    lemma_alias_groups();
}

/// The literal facts behind the alias table: the spellings are pairwise
/// distinct, and the canonical names are not alias spellings.
proof fn lemma_alias_groups()
    ensures
        spec_canonical("SYSTEM"@) == "SYSC"@,
        spec_canonical("SYSC"@) == "SYSC"@,
        spec_canonical("PFS_A"@) == "PFS"@,
        spec_canonical("PFS_B"@) == "PFS"@,
        spec_canonical("PFS_NS"@) == "PFS"@,
        spec_canonical("PFS"@) == "PFS"@,
        forall|n: Seq<char>|
            n != "SYSTEM"@ && n != "PFS_A"@ && n != "PFS_B"@ && n != "PFS_NS"@
                ==> #[trigger] spec_canonical(n) == n,
{
    reveal_strlit("SYSTEM");
    reveal_strlit("SYSC");
    reveal_strlit("PFS_A");
    reveal_strlit("PFS_B");
    reveal_strlit("PFS_NS");
    reveal_strlit("PFS");
    assert("SYSC"@.len() == 4);
    assert("SYSTEM"@.len() == 6);
    assert("PFS"@.len() == 3);
    assert("PFS_A"@.len() == 5);
    assert("PFS_B"@.len() == 5);
    assert("PFS_NS"@.len() == 6);
    assert("PFS_A"@[4] == 'A');
    assert("PFS_B"@[4] == 'B');
    assert("PFS_NS"@[0] == 'P');
    assert("SYSTEM"@[0] == 'S');
}

/// Every spelling of an alias group resolves to the same register-block
/// assignment: the rewrite maps the group to one canonical name, so the
/// mapping table cannot tell the spellings apart.
pub proof fn lemma_alias_resolution(chip: Seq<char>)
    ensures
        spec_canonical("SYSTEM"@) == spec_canonical("SYSC"@),
        spec_canonical("PFS_A"@) == spec_canonical("PFS"@),
        spec_canonical("PFS_B"@) == spec_canonical("PFS"@),
        spec_canonical("PFS_NS"@) == spec_canonical("PFS"@),
        spec_resolve(chip, spec_canonical("SYSTEM"@)) == spec_resolve(chip, spec_canonical("SYSC"@)),
        spec_resolve(chip, spec_canonical("PFS_A"@)) == spec_resolve(
            chip,
            spec_canonical("PFS_B"@),
        ),
        spec_resolve(chip, spec_canonical("PFS_A"@)) == spec_resolve(
            chip,
            spec_canonical("PFS_NS"@),
        ),
        spec_resolve(chip, spec_canonical("PFS_A"@)) == spec_resolve(chip, spec_canonical("PFS"@)),
{
    lemma_alias_groups();
}

/// The prefix swaps that turn a lower-cased family identifier into the
/// directory name its interrupt table lives under: a 4-character vendor
/// prefix becomes `ra`.
pub open spec fn spec_dir_swaps() -> Seq<(Seq<char>, Seq<char>)> {
    seq![(seq!['r', '7', 'f'], seq!['r', 'a']), (seq!['r', '7', 'k'], seq!['r', 'a'])]
}

/// Apply the first prefix swap whose test prefix matches; the swap drops
/// the first four characters.
pub open spec fn spec_apply_swaps(swaps: Seq<(Seq<char>, Seq<char>)>, d: Seq<char>) -> Seq<char>
    decreases swaps.len(),
{
    if swaps.len() == 0 {
        d
    } else if starts_with(d, swaps[0].0) && d.len() >= 4 {
        swaps[0].1 + d.skip(4)
    } else {
        spec_apply_swaps(swaps.skip(1), d)
    }
}

/// The interrupt-table directory name for a chip family: the family name
/// lower-cased, with the vendor prefix swapped.
pub open spec fn spec_family_dir(family: Seq<char>) -> Seq<char> {
    spec_apply_swaps(spec_dir_swaps(), lower(family))
}

/// Compute [`spec_family_dir`].
#[verifier::loop_isolation(false)]
pub fn family_dir_name(family: &str) -> (r: String)
    ensures
        r@ == spec_family_dir(family@),
{
    let ghost d = lower(family@);
    let n = family.unicode_len();
    let mut dn: Vec<char> = Vec::new();
    let mut i: usize = 0;
    while i < n
        invariant
            i <= n,
            n == family@.len(),
            dn@ == d.take(i as int),
        decreases n - i,
    {
        dn.push(lower_char_exec(family.get_char(i)));
        i = i + 1;
        proof {
            assert(dn@ =~= d.take(i as int));
        }
    }
    proof {
        assert(dn@ =~= d);
    }
    // the swap table: (test prefix, replacement), drop count fixed at 4
    let mut swaps: Vec<(&'static str, &'static str)> = Vec::new();
    swaps.push(("r7f", "ra"));
    swaps.push(("r7k", "ra"));
    proof {
        reveal_strlit("r7f");
        reveal_strlit("r7k");
        reveal_strlit("ra");
        assert("r7f"@ =~= seq!['r', '7', 'f']);
        assert("r7k"@ =~= seq!['r', '7', 'k']);
        assert("ra"@ =~= seq!['r', 'a']);
    }
    proof {
        assert(spec_dir_swaps().skip(0) =~= spec_dir_swaps());
    }
    let mut k: usize = 0;
    while k < 2
        invariant
            k <= 2,
            swaps@.len() == 2,
            swaps@[0].0@ == spec_dir_swaps()[0].0 && swaps@[0].1@ == spec_dir_swaps()[0].1,
            swaps@[1].0@ == spec_dir_swaps()[1].0 && swaps@[1].1@ == spec_dir_swaps()[1].1,
            dn@ == d,
            spec_apply_swaps(spec_dir_swaps(), d) == spec_apply_swaps(
                spec_dir_swaps().skip(k as int),
                d,
            ),
        decreases 2 - k,
    {
        let pref = str_chars(swaps[k].0);
        if vec_starts_with(&dn, &pref) && dn.len() >= 4 {
            let mut out = str_chars(swaps[k].1);
            let mut j: usize = 4;
            let dl = dn.len();
            while j < dl
                invariant
                    4 <= j <= dl,
                    dl == d.len(),
                    dn@ == d,
                    out@ == swaps@[k as int].1@ + d.subrange(4, j as int),
                decreases dl - j,
            {
                out.push(dn[j]);
                j = j + 1;
                proof {
                    assert(out@ =~= swaps@[k as int].1@ + d.subrange(4, j as int));
                }
            }
            proof {
                assert(spec_dir_swaps().skip(k as int)[0] == spec_dir_swaps()[k as int]);
                assert(out@ =~= spec_dir_swaps()[k as int].1 + d.skip(4));
            }
            return chars_to_string(&out);
        }
        proof {
            assert(spec_dir_swaps().skip(k as int)[0] == spec_dir_swaps()[k as int]);
            assert(spec_dir_swaps().skip(k as int).skip(1) =~= spec_dir_swaps().skip(k + 1));
        }
        k = k + 1;
    }
    proof {
        assert(spec_dir_swaps().skip(2).len() == 0);
    }
    chars_to_string(&dn)
}

/// Split a peripheral instance name into its base name and the trailing
/// channel digits: `GPT0` becomes `(GPT, Some(0))`, `SCI1` becomes
/// `(SCI, Some(1))`, and a name without trailing digits (or that is all
/// digits, or whose digits overflow a `u32`) keeps its spelling with no
/// channel.
pub open spec fn spec_split_channel(name: Seq<char>) -> (Seq<char>, Option<u32>) {
    let k = trailing_digits(name);
    if 0 < k < name.len() && digits_val(name.skip(name.len() - k)) <= u32::MAX {
        (name.take(name.len() - k), Some(digits_val(name.skip(name.len() - k)) as u32))
    } else {
        (name, None)
    }
}

/// Extract peripheral base name and channel from an instance name,
/// e.g. `"GPT0"` -> `("GPT", Some(0))`, `"DTC"` -> `("DTC", None)`.
pub fn parse_peripheral_name(name: &str) -> (r: (String, Option<u32>))
    ensures
        r.0@ == spec_split_channel(name@).0,
        r.1 == spec_split_channel(name@).1,
{
    let v = str_chars(name);
    proof {
        lemma_trailing_digits(v@);
    }
    let k = count_trailing_digits(&v);
    let n = v.len();
    if 0 < k && k < n {
        proof {
            assert(v@.skip(n - k) =~= v@.subrange(n - k, n as int));
        }
        match parse_digits(&v, n - k, n) {
            Some(c) => {
                let base = chars_substring(&v, 0, n - k);
                proof {
                    assert(v@.take(n - k) =~= v@.subrange(0, n - k));
                }
                return (base, Some(c));
            },
            None => {
                return (name.to_owned(), None);
            },
        }
    }
    (name.to_owned(), None)
}

/// The signals of the interrupts that belong to a peripheral: those whose
/// derived peripheral and channel equal the given pair, in encounter order,
/// skipping descriptors without a signal.
pub open spec fn spec_link(ints: Seq<InterruptV>, t: Seq<char>, ch: Option<u32>) -> Seq<Seq<char>>
    decreases ints.len(),
{
    if ints.len() == 0 {
        Seq::empty()
    } else {
        let rest = spec_link(ints.skip(1), t, ch);
        if ints[0].peripheral == Some(t) && ints[0].channel == ch {
            match ints[0].signal {
                Some(s) => seq![s] + rest,
                None => rest,
            }
        } else {
            rest
        }
    }
}

/// Find interrupt signals that belong to a peripheral instance.
#[verifier::loop_isolation(false)]
pub fn find_interrupts_for_peripheral(
    interrupts: &Vec<Interrupt>,
    peri_type: &str,
    channel: Option<u32>,
) -> (r: Vec<String>)
    ensures
        r.deep_view() == spec_link(interrupts.deep_view(), peri_type@, channel),
{
    let ghost all = interrupts.deep_view();
    let mut out: Vec<String> = Vec::new();
    let n = interrupts.len();
    let mut i: usize = 0;
    proof {
        assert(all.skip(0) =~= all);
    }
    while i < n
        invariant
            i <= n,
            spec_link(all, peri_type@, channel) == out.deep_view() + spec_link(
                all.skip(i as int),
                peri_type@,
                channel,
            ),
        decreases n - i,
    {
        proof {
            assert(all.skip(i as int)[0] == all[i as int]);
            assert(all.skip(i as int).skip(1) =~= all.skip(i + 1));
            assert(all[i as int] == interrupts@[i as int].deep_view());
        }
        let irq = &interrupts[i];
        let type_hit = match &irq.peripheral {
            Some(p) => str_eq(p.as_str(), peri_type),
            None => false,
        };
        let chan_hit = match (&irq.channel, &channel) {
            (Some(a), Some(b)) => *a == *b,
            (None, None) => true,
            _ => false,
        };
        if type_hit && chan_hit {
            match &irq.signal {
                Some(s) => {
                    out.push(s.clone());
                    proof {
                        assert(out.deep_view() =~= out.deep_view().take(
                            out.deep_view().len() - 1,
                        ).push(s@));
                        assert((out.deep_view().take(out.deep_view().len() - 1).push(s@)) + spec_link(
                            all.skip(i + 1),
                            peri_type@,
                            channel,
                        ) =~= out.deep_view().take(out.deep_view().len() - 1) + (seq![s@]
                            + spec_link(all.skip(i + 1), peri_type@, channel)));
                    }
                },
                None => {},
            }
        }
        i = i + 1;
    }
    proof {
        assert(all.skip(n as int).len() == 0);
        assert(out.deep_view() + Seq::<Seq<char>>::empty() =~= out.deep_view());
    }
    out
}

/// A copy of a string vector, element by element.
#[verifier::loop_isolation(false)]
fn clone_vec_string(v: &Vec<String>) -> (r: Vec<String>)
    ensures
        r.deep_view() == v.deep_view(),
{
    let mut out: Vec<String> = Vec::new();
    let n = v.len();
    let mut i: usize = 0;
    while i < n
        invariant
            i <= n,
            out@.len() == i,
            forall|j: int| 0 <= j < i ==> #[trigger] out@[j]@ == v@[j]@,
        decreases n - i,
    {
        out.push(v[i].clone());
        i = i + 1;
    }
    proof {
        assert forall|j: int| 0 <= j < n implies out.deep_view()[j] == v.deep_view()[j] by {
            assert(out.deep_view()[j] == out@[j]@);
            assert(v.deep_view()[j] == v@[j]@);
        }
        assert(out.deep_view() =~= v.deep_view());
    }
    out
}

/// A copy of an optional string.
fn clone_opt_string(o: &Option<String>) -> (r: Option<String>)
    ensures
        r.deep_view() == o.deep_view(),
{
    match o {
        Some(s) => Some(s.clone()),
        None => None,
    }
}

/// A copy of an optional slot list.
#[verifier::loop_isolation(false)]
fn clone_opt_vec_u32(o: &Option<Vec<u32>>) -> (r: Option<Vec<u32>>)
    ensures
        r.deep_view() == o.deep_view(),
{
    match o {
        Some(v) => {
            let mut out: Vec<u32> = Vec::new();
            let n = v.len();
            let mut i: usize = 0;
            while i < n
                invariant
                    i <= n,
                    out@ == v@.take(i as int),
                decreases n - i,
            {
                out.push(v[i]);
                i = i + 1;
                proof {
                    assert(out@ =~= v@.take(i as int));
                }
            }
            proof {
                assert(out@ =~= v@);
                assert(out.deep_view() =~= v.deep_view());
            }
            Some(out)
        },
        None => None,
    }
}

/// A copy of one interrupt descriptor.
fn clone_interrupt(i: &Interrupt) -> (r: Interrupt)
    ensures
        r.deep_view() == i.deep_view(),
{
    Interrupt {
        name: i.name.clone(),
        value: i.value,
        description: clone_opt_string(&i.description),
        irq_number: clone_opt_vec_u32(&i.irq_number),
        peripheral: clone_opt_string(&i.peripheral),
        channel: i.channel,
        signal: clone_opt_string(&i.signal),
    }
}

/// A copy of an interrupt list.
#[verifier::loop_isolation(false)]
fn clone_interrupts(v: &Vec<Interrupt>) -> (r: Vec<Interrupt>)
    ensures
        r.deep_view() == v.deep_view(),
{
    let mut out: Vec<Interrupt> = Vec::new();
    let n = v.len();
    let mut i: usize = 0;
    while i < n
        invariant
            i <= n,
            out@.len() == i,
            forall|j: int| 0 <= j < i ==> #[trigger] out@[j].deep_view() == v@[j].deep_view(),
        decreases n - i,
    {
        out.push(clone_interrupt(&v[i]));
        i = i + 1;
    }
    proof {
        assert(out.deep_view() =~= v.deep_view());
    }
    out
}

/// The interrupt table of the family directory, or nothing: the first entry
/// with that exact key.
pub open spec fn spec_family_ints(
    fi: Seq<(Seq<char>, Seq<InterruptV>)>,
    key: Seq<char>,
) -> Seq<InterruptV>
    decreases fi.len(),
{
    if fi.len() == 0 {
        Seq::empty()
    } else if fi[0].0 == key {
        fi[0].1
    } else {
        spec_family_ints(fi.skip(1), key)
    }
}

/// Look up the interrupt table for a family directory name.
#[verifier::loop_isolation(false)]
fn lookup_family_interrupts(fi: &Vec<(String, Vec<Interrupt>)>, key: &str) -> (r: Vec<Interrupt>)
    ensures
        r.deep_view() == spec_family_ints(fi.deep_view(), key@),
{
    let ghost all = fi.deep_view();
    proof {
        assert(all.skip(0) =~= all);
    }
    let n = fi.len();
    let mut i: usize = 0;
    while i < n
        invariant
            i <= n,
            spec_family_ints(all, key@) == spec_family_ints(all.skip(i as int), key@),
        decreases n - i,
    {
        proof {
            assert(all.skip(i as int)[0] == all[i as int]);
            assert(all.skip(i as int).skip(1) =~= all.skip(i + 1));
            assert(all[i as int] == fi@[i as int].deep_view());
        }
        if str_eq(fi[i].0.as_str(), key) {
            return clone_interrupts(&fi[i].1);
        }
        i = i + 1;
    }
    proof {
        assert(all.skip(n as int).len() == 0);
    }
    Vec::new()
}

/// A signal that names a raw GPIO pin: one ASCII letter, then digits.
pub open spec fn is_pin_name(s: Seq<char>) -> bool {
    s.len() >= 2 && (is_upper(s[0]) || is_lower(s[0])) && digit_run(s, 1, s.len() as int)
}

/// Fold the pin-looking signals of a list into the sorted pin-name set.
pub open spec fn spec_add_signals(acc: Seq<Seq<char>>, sigs: Seq<Seq<char>>) -> Seq<Seq<char>>
    decreases sigs.len(),
{
    if sigs.len() == 0 {
        acc
    } else {
        let acc2 = if is_pin_name(sigs[0]) {
            spec_insert_sorted(acc, crate::text::upper(sigs[0]))
        } else {
            acc
        };
        spec_add_signals(acc2, sigs.skip(1))
    }
}

/// Fold a package's pins into the sorted pin-name set.
pub open spec fn spec_add_pins(acc: Seq<Seq<char>>, pins: Seq<PinV>) -> Seq<Seq<char>>
    decreases pins.len(),
{
    if pins.len() == 0 {
        acc
    } else {
        spec_add_pins(spec_add_signals(acc, pins[0].signals), pins.skip(1))
    }
}

/// Fold all packages into the sorted pin-name set.
pub open spec fn spec_add_packages(acc: Seq<Seq<char>>, pkgs: Seq<PackageV>) -> Seq<Seq<char>>
    decreases pkgs.len(),
{
    if pkgs.len() == 0 {
        acc
    } else {
        spec_add_packages(spec_add_pins(acc, pkgs[0].pins), pkgs.skip(1))
    }
}

/// The GPIO pin name set of the packages: every signal that looks like a
/// raw pin reference, upper-cased, sorted and de-duplicated.
pub open spec fn spec_derive_pins(pkgs: Seq<PackageV>) -> Seq<Seq<char>> {
    spec_add_packages(Seq::empty(), pkgs)
}

/// Collect the GPIO pin name set of the packages.
#[verifier::loop_isolation(false)]
fn derive_pins(packages: &Vec<Package>) -> (r: Vec<String>)
    ensures
        r.deep_view() == spec_derive_pins(packages.deep_view()),
{
    let ghost pkgs = packages.deep_view();
    let mut out: Vec<String> = Vec::new();
    let np = packages.len();
    let mut i: usize = 0;
    proof {
        assert(pkgs.skip(0) =~= pkgs);
        assert(out.deep_view() =~= Seq::<Seq<char>>::empty());
    }
    while i < np
        invariant
            i <= np,
            spec_derive_pins(pkgs) == spec_add_packages(out.deep_view(), pkgs.skip(i as int)),
        decreases np - i,
    {
        proof {
            assert(pkgs.skip(i as int)[0] == pkgs[i as int]);
            assert(pkgs.skip(i as int).skip(1) =~= pkgs.skip(i + 1));
            assert(pkgs[i as int] == packages@[i as int].deep_view());
        }
        let ghost pins = pkgs[i as int].pins;
        let pkg = &packages[i];
        let npn = pkg.pins.len();
        let mut j: usize = 0;
        proof {
            assert(pins.skip(0) =~= pins);
        }
        while j < npn
            invariant
                j <= npn,
                npn == pins.len(),
                spec_derive_pins(pkgs) == spec_add_packages(
                    spec_add_pins(out.deep_view(), pins.skip(j as int)),
                    pkgs.skip(i + 1),
                ),
            decreases npn - j,
        {
            proof {
                assert(pins.skip(j as int)[0] == pins[j as int]);
                assert(pins.skip(j as int).skip(1) =~= pins.skip(j + 1));
                assert(pins[j as int] == pkg.pins@[j as int].deep_view());
            }
            let ghost sigs = pins[j as int].signals;
            let pin = &pkg.pins[j];
            let ns = pin.signals.len();
            let mut k: usize = 0;
            proof {
                assert(sigs.skip(0) =~= sigs);
            }
            while k < ns
                invariant
                    k <= ns,
                    ns == sigs.len(),
                    spec_derive_pins(pkgs) == spec_add_packages(
                        spec_add_pins(
                            spec_add_signals(out.deep_view(), sigs.skip(k as int)),
                            pins.skip(j + 1),
                        ),
                        pkgs.skip(i + 1),
                    ),
                decreases ns - k,
            {
                proof {
                    assert(sigs.skip(k as int)[0] == sigs[k as int]);
                    assert(sigs.skip(k as int).skip(1) =~= sigs.skip(k + 1));
                    assert(sigs[k as int] == pin.signals@[k as int]@);
                }
                let s = &pin.signals[k];
                let sv = str_chars(s.as_str());
                let sn = sv.len();
                let alpha_first = sn >= 2 && (('A' <= sv[0] && sv[0] <= 'Z') || ('a' <= sv[0]
                    && sv[0] <= 'z'));
                if alpha_first && crate::text::all_digits(&sv, 1, sn) {
                    let upped = crate::text::upper_chars(s.as_str());
                    let up_string = chars_to_string(&upped);
                    insert_sorted(&mut out, up_string);
                } else {
                    proof {
                        assert(!is_pin_name(sigs[k as int]));
                    }
                }
                k = k + 1;
            }
            j = j + 1;
        }
        i = i + 1;
    }
    proof {
        assert(pkgs.skip(np as int).len() == 0);
    }
    out
}

/// Membership of a string in the register-block catalog.
#[verifier::loop_isolation(false)]
fn contains_string(v: &Vec<String>, x: &str) -> (r: bool)
    ensures
        r == v.deep_view().contains(x@),
{
    let n = v.len();
    let mut i: usize = 0;
    while i < n
        invariant
            i <= n,
            forall|j: int| 0 <= j < i ==> v.deep_view()[j] != x@,
        decreases n - i,
    {
        if str_eq(v[i].as_str(), x) {
            proof {
                assert(v.deep_view()[i as int] == x@);
            }
            return true;
        }
        proof {
            assert(v.deep_view()[i as int] == v@[i as int]@);
        }
        i = i + 1;
    }
    proof {
        assert(!v.deep_view().contains(x@));
    }
    false
}

/// The catalog key of a register-block assignment: `"{type}_{version}"`.
pub open spec fn spec_reg_key(peri_type: Seq<char>, version: Seq<char>) -> Seq<char> {
    peri_type + seq!['_'] + version
}

/// Build the catalog key of a register-block assignment.
#[verifier::loop_isolation(false)]
fn reg_key(peri_type: &str, version: &str) -> (r: String)
    ensures
        r@ == spec_reg_key(peri_type@, version@),
{
    let mut out = str_chars(peri_type);
    out.push('_');
    let rest = str_chars(version);
    let n = rest.len();
    let mut i: usize = 0;
    while i < n
        invariant
            i <= n,
            n == version@.len(),
            out@ == peri_type@ + seq!['_'] + version@.take(i as int),
        decreases n - i,
    {
        out.push(rest[i]);
        i = i + 1;
        proof {
            assert(out@ =~= peri_type@ + seq!['_'] + version@.take(i as int));
        }
    }
    proof {
        assert(out@ =~= spec_reg_key(peri_type@, version@));
    }
    chars_to_string(&out)
}

/// The packages of a chip: the one its name selects from the pin mappings,
/// or none.
pub open spec fn spec_packages(
    name: Seq<char>,
    pm: Seq<(Seq<char>, crate::pinmapping::PmPackageV)>,
) -> Seq<PackageV> {
    match spec_get_for_chip(pm, name) {
        Some(p) => seq![
            PackageV {
                chip: name,
                package: p.name,
                pins: p.pins.map_values(
                    |q: PmPinV| PinV { position: q.position, signals: q.signals },
                ),
            },
        ],
        None => Seq::empty(),
    }
}

/// The record the assembler keeps for one raw peripheral instance, if the
/// mapping table and the register-block catalog accept it.
pub open spec fn spec_peri_entry(
    chip: Seq<char>,
    p: crate::rzone::RzPeripheralV,
    ints: Seq<InterruptV>,
    regs: Seq<Seq<char>>,
) -> Option<PeripheralV> {
    let canon = spec_canonical(p.name);
    match spec_resolve(chip, canon) {
        None => None,
        Some(info) => if regs.contains(spec_reg_key(info.peri_type, info.version)) {
            let (t, ch) = spec_split_channel(canon);
            Some(
                PeripheralV {
                    name: canon,
                    address: p.address,
                    peri_type: info.peri_type,
                    version: info.version,
                    block: info.block,
                    mstp: match spec_get_mstp(p.name, chip) {
                        Some(m) => Some(MstpV { register: m.register, bit: m.bit }),
                        None => None,
                    },
                    interrupts: spec_link(ints, t, ch),
                },
            )
        } else {
            None
        },
    }
}

/// The resolved peripherals of a chip, in declaration order; instances the
/// table or the catalog reject are silently dropped.
pub open spec fn spec_peripherals(
    chip: Seq<char>,
    peris: Seq<crate::rzone::RzPeripheralV>,
    ints: Seq<InterruptV>,
    regs: Seq<Seq<char>>,
) -> Seq<PeripheralV>
    decreases peris.len(),
{
    if peris.len() == 0 {
        Seq::empty()
    } else {
        let rest = spec_peripherals(chip, peris.skip(1), ints, regs);
        match spec_peri_entry(chip, peris[0], ints, regs) {
            Some(p) => seq![p] + rest,
            None => rest,
        }
    }
}

/// The finished record for one chip, as a function of its inputs alone.
pub open spec fn spec_assemble(
    name: Seq<char>,
    rz: ParsedRzoneV,
    pm: Seq<(Seq<char>, crate::pinmapping::PmPackageV)>,
    fi: Seq<(Seq<char>, Seq<InterruptV>)>,
    regs: Seq<Seq<char>>,
) -> ChipV {
    let packages = spec_packages(name, pm);
    let ints = spec_family_ints(fi, spec_family_dir(rz.family));
    ChipV {
        name: name,
        family: rz.family,
        core: rz.core,
        interrupt_count: rz.interrupt_count,
        memory: rz.memories.map_values(
            |m: crate::rzone::RzMemoryV|
                crate::types::MemoryV {
                    name: m.name,
                    kind: m.kind,
                    address: m.address,
                    size: m.size,
                },
        ),
        peripherals: spec_peripherals(name, rz.peripherals, ints, regs),
        interrupts: ints,
        packages: packages,
        pins: spec_derive_pins(packages),
    }
}

/// Assemble the finished record for one chip.
///
/// The steps, in order: rewrite alias peripheral names to their canonical
/// spelling; consult the register mapping table and keep only instances
/// whose register block the catalog holds; attach module-stop gating
/// computed from the raw instance name; link the interrupt signals of the
/// family's table to each kept instance; copy memories and the package in;
/// and derive the GPIO pin name set from the package signals.
#[verifier::loop_isolation(false)]
pub fn assemble(
    name: &str,
    parsed: &ParsedRzone,
    pin_mappings: &PinMappings,
    family_interrupts: &Vec<(String, Vec<Interrupt>)>,
    available_registers: &Vec<String>,
) -> (c: Chip)
    ensures
        c.deep_view() == spec_assemble(
            name@,
            parsed.deep_view(),
            pin_mappings.deep_view().mappings,
            family_interrupts.deep_view(),
            available_registers.deep_view(),
        ),
{
    let ghost rz = parsed.deep_view();
    let ghost pm = pin_mappings.deep_view().mappings;
    let ghost fi = family_interrupts.deep_view();
    let ghost regs = available_registers.deep_view();

    // the package selected by the chip name, if any
    let mut packages: Vec<Package> = Vec::new();
    match pin_mappings.get_for_chip(name) {
        Some(mapping) => {
            let mut pins: Vec<Pin> = Vec::new();
            let npn = mapping.pins.len();
            let ghost mpins = mapping.deep_view().pins;
            let mut j: usize = 0;
            while j < npn
                invariant
                    j <= npn,
                    npn == mpins.len(),
                    pins@.len() == j,
                    forall|t: int|
                        0 <= t < j ==> #[trigger] pins@[t].deep_view() == (PinV {
                            position: mpins[t].position,
                            signals: mpins[t].signals,
                        }),
                decreases npn - j,
            {
                proof {
                    assert(mpins[j as int] == mapping.pins@[j as int].deep_view());
                }
                let p = &mapping.pins[j];
                pins.push(Pin { position: p.position.clone(), signals: clone_vec_string(&p.signals) });
                j = j + 1;
            }
            packages.push(
                Package { chip: name.to_owned(), package: mapping.name.clone(), pins },
            );
            proof {
                assert(packages.deep_view()[0].pins =~= mapping.deep_view().pins.map_values(
                    |q: PmPinV| PinV { position: q.position, signals: q.signals },
                ));
                assert(packages.deep_view() =~= spec_packages(name@, pm));
            }
        },
        None => {
            proof {
                assert(packages.deep_view() =~= spec_packages(name@, pm));
            }
        },
    }

    // the interrupt table of the chip's family
    let family_dir = family_dir_name(parsed.family.as_str());
    let interrupts = lookup_family_interrupts(family_interrupts, family_dir.as_str());
    let ghost ints = spec_family_ints(fi, spec_family_dir(rz.family));

    // the peripherals the mapping table and the catalog accept
    let mut peripherals: Vec<Peripheral> = Vec::new();
    let np = parsed.peripherals.len();
    let ghost peris = rz.peripherals;
    let mut i: usize = 0;
    proof {
        assert(peris.skip(0) =~= peris);
        assert(peripherals.deep_view() =~= Seq::<PeripheralV>::empty());
    }
    while i < np
        invariant
            i <= np,
            np == peris.len(),
            spec_peripherals(name@, peris, ints, regs) == peripherals.deep_view()
                + spec_peripherals(name@, peris.skip(i as int), ints, regs),
        decreases np - i,
    {
        proof {
            assert(peris.skip(i as int)[0] == peris[i as int]);
            assert(peris.skip(i as int).skip(1) =~= peris.skip(i + 1));
            assert(peris[i as int] == parsed.peripherals@[i as int].deep_view());
        }
        let p = &parsed.peripherals[i];
        let peri_name = canonical_name(p.name.as_str());
        let ghost entry = spec_peri_entry(name@, peris[i as int], ints, regs);
        match resolve(name, peri_name) {
            Some(info) => {
                let key = reg_key(info.peri_type, info.version);
                if contains_string(available_registers, key.as_str()) {
                    let mstp = match get_mstp_for_peripheral(p.name.as_str(), name) {
                        Some(m) => Some(Mstp { register: m.register, bit: m.bit }),
                        None => None,
                    };
                    let (peri_type, channel) = parse_peripheral_name(peri_name);
                    let sigs = find_interrupts_for_peripheral(
                        &interrupts,
                        peri_type.as_str(),
                        channel,
                    );
                    let built = Peripheral {
                        name: peri_name.to_owned(),
                        address: p.address,
                        peri_type: info.peri_type.to_owned(),
                        version: info.version.to_owned(),
                        block: info.block.to_owned(),
                        mstp,
                        interrupts: sigs,
                    };
                    proof {
                        assert(entry == Some(built.deep_view()));
                    }
                    peripherals.push(built);
                    proof {
                        assert(peripherals.deep_view() =~= peripherals.deep_view().take(
                            peripherals.deep_view().len() - 1,
                        ) + seq![entry->Some_0]);
                        assert((peripherals.deep_view().take(peripherals.deep_view().len() - 1)
                            + seq![entry->Some_0]) + spec_peripherals(
                            name@,
                            peris.skip(i + 1),
                            ints,
                            regs,
                        ) =~= peripherals.deep_view().take(peripherals.deep_view().len() - 1) + (
                        seq![entry->Some_0] + spec_peripherals(name@, peris.skip(i + 1), ints, regs)));
                    }
                } else {
                    proof {
                        assert(entry is None);
                    }
                }
            },
            None => {
                proof {
                    assert(entry is None);
                }
            },
        }
        i = i + 1;
    }
    proof {
        assert(peris.skip(np as int).len() == 0);
        assert(peripherals.deep_view() + Seq::<PeripheralV>::empty() =~= peripherals.deep_view());
    }

    // memories, copied over
    let mut memory: Vec<Memory> = Vec::new();
    let nm = parsed.memories.len();
    let mut m: usize = 0;
    while m < nm
        invariant
            m <= nm,
            nm == parsed.memories@.len(),
            memory@.len() == m,
            forall|t: int|
                0 <= t < m ==> #[trigger] memory@[t].deep_view() == (crate::types::MemoryV {
                    name: rz.memories[t].name,
                    kind: rz.memories[t].kind,
                    address: rz.memories[t].address,
                    size: rz.memories[t].size,
                }),
        decreases nm - m,
    {
        proof {
            assert(rz.memories[m as int] == parsed.memories@[m as int].deep_view());
        }
        let mem = &parsed.memories[m];
        memory.push(
            Memory {
                name: mem.name.clone(),
                kind: mem.kind.clone(),
                address: mem.address,
                size: mem.size,
            },
        );
        m = m + 1;
    }

    let pins = derive_pins(&packages);

    let c = Chip {
        name: name.to_owned(),
        family: parsed.family.clone(),
        core: parsed.core.clone(),
        interrupt_count: parsed.interrupt_count,
        memory,
        peripherals,
        interrupts,
        packages,
        pins,
    };
    proof {
        assert(c.deep_view().memory =~= rz.memories.map_values(
            |mm: crate::rzone::RzMemoryV|
                crate::types::MemoryV {
                    name: mm.name,
                    kind: mm.kind,
                    address: mm.address,
                    size: mm.size,
                },
        ));
    }
    c
}

/// Assembling is deterministic: the record is a function of the inputs
/// alone, so identical inputs give identical records.
pub proof fn lemma_assemble_deterministic(
    name1: Seq<char>,
    rz1: ParsedRzoneV,
    pm1: Seq<(Seq<char>, crate::pinmapping::PmPackageV)>,
    fi1: Seq<(Seq<char>, Seq<InterruptV>)>,
    regs1: Seq<Seq<char>>,
    name2: Seq<char>,
    rz2: ParsedRzoneV,
    pm2: Seq<(Seq<char>, crate::pinmapping::PmPackageV)>,
    fi2: Seq<(Seq<char>, Seq<InterruptV>)>,
    regs2: Seq<Seq<char>>,
)
    requires
        name1 == name2,
        rz1 == rz2,
        pm1 == pm2,
        fi1 == fi2,
        regs1 == regs2,
    ensures
        spec_assemble(name1, rz1, pm1, fi1, regs1) == spec_assemble(name2, rz2, pm2, fi2, regs2),
{
}

/// Within one assembly, two alias spellings of the same peripheral are
/// accepted or rejected together and carry the same register-block
/// assignment (type, version and block).
pub proof fn lemma_alias_entries_agree(
    chip: Seq<char>,
    p1: crate::rzone::RzPeripheralV,
    p2: crate::rzone::RzPeripheralV,
    ints: Seq<InterruptV>,
    regs: Seq<Seq<char>>,
)
    requires
        spec_canonical(p1.name) == spec_canonical(p2.name),
    ensures
        match (spec_peri_entry(chip, p1, ints, regs), spec_peri_entry(chip, p2, ints, regs)) {
            (Some(a), Some(b)) => a.peri_type == b.peri_type && a.version == b.version && a.block
                == b.block,
            (None, None) => true,
            _ => false,
        },
{
}

} // verus!
