//! Building a family's interrupt descriptor list from the raw event
//! entries of the vendor's interrupt-enumeration header.
//!
//! The surrounding tooling extracts `(name, value, description)` triples
//! from the header text; everything after that — grouped-interrupt
//! expansion, merging, name parsing, ordering — happens here.

use vstd::prelude::*;
use crate::mstp::chan_of;
use crate::text::{
    chars_substring, chars_to_string, contains_seq, digit_run, digit_val, is_digit, is_upper,
    parse_digits, str_chars, str_eq, str_lt, vec_contains_seq, vec_eq_at,
};
use crate::types::{Interrupt, InterruptV};

verus! {

/// One raw event entry of an interrupt-enumeration header.
#[derive(Debug, Clone, PartialEq)]
pub struct RawEvent {
    pub name: String,
    pub value: u32,
    pub description: String,
}

/// Mathematical value of a [`RawEvent`].
pub ghost struct RawEventV {
    pub name: Seq<char>,
    pub value: u32,
    pub description: Seq<char>,
}

impl DeepView for RawEvent {
    type V = RawEventV;

    open spec fn deep_view(&self) -> RawEventV {
        RawEventV { name: self.name@, value: self.value, description: self.description@ }
    }
}

/// End of the run of ASCII upper-case letters that starts at `from`.
pub open spec fn upper_run(s: Seq<char>, from: int) -> int
    decreases s.len() - from,
{
    if from < 0 || from >= s.len() || !is_upper(s[from]) {
        from
    } else {
        upper_run(s, from + 1)
    }
}

/// `upper_run` ends at the first non-letter: everything in the run is a
/// letter and the character after it (if any) is not.
pub proof fn lemma_upper_run(s: Seq<char>, from: int)
    requires
        0 <= from <= s.len(),
    ensures
        from <= upper_run(s, from) <= s.len(),
        forall|j: int| from <= j < upper_run(s, from) ==> is_upper(#[trigger] s[j]),
        upper_run(s, from) == s.len() || !is_upper(s[upper_run(s, from)]),
    decreases s.len() - from,
{
    if from < s.len() && is_upper(s[from]) {
        lemma_upper_run(s, from + 1);
    }
}

/// End of the run of ASCII digits that starts at `from`.
pub open spec fn digit_run_end(s: Seq<char>, from: int) -> int
    decreases s.len() - from,
{
    if from < 0 || from >= s.len() || !is_digit(s[from]) {
        from
    } else {
        digit_run_end(s, from + 1)
    }
}

/// `digit_run_end` ends at the first non-digit.
pub proof fn lemma_digit_run_end(s: Seq<char>, from: int)
    requires
        0 <= from <= s.len(),
    ensures
        from <= digit_run_end(s, from) <= s.len(),
        forall|j: int| from <= j < digit_run_end(s, from) ==> is_digit(#[trigger] s[j]),
        digit_run_end(s, from) == s.len() || !is_digit(s[digit_run_end(s, from)]),
    decreases s.len() - from,
{
    if from < s.len() && is_digit(s[from]) {
        lemma_digit_run_end(s, from + 1);
    }
}

/// Find the end of the letter run starting at `from`.
#[verifier::loop_isolation(false)]
fn scan_upper(v: &Vec<char>, from: usize) -> (r: usize)
    requires
        from <= v@.len(),
    ensures
        r == upper_run(v@, from as int),
{
    proof {
        lemma_upper_run(v@, from as int);
    }
    let n = v.len();
    let mut i = from;
    while i < n && 'A' <= v[i] && v[i] <= 'Z'
        invariant
            from <= i <= n,
            forall|j: int| from <= j < i ==> is_upper(#[trigger] v@[j]),
        decreases n - i,
    {
        i = i + 1;
    }
    proof {
        let r = upper_run(v@, from as int);
        if i < r {
            assert(is_upper(v@[i as int]));
            assert(false);
        }
        if i > r {
            assert(is_upper(v@[r]));
            assert(false);
        }
    }
    i
}

/// Find the end of the digit run starting at `from`.
#[verifier::loop_isolation(false)]
fn scan_digits(v: &Vec<char>, from: usize) -> (r: usize)
    requires
        from <= v@.len(),
    ensures
        r == digit_run_end(v@, from as int),
{
    proof {
        lemma_digit_run_end(v@, from as int);
    }
    let n = v.len();
    let mut i = from;
    while i < n && '0' <= v[i] && v[i] <= '9'
        invariant
            from <= i <= n,
            forall|j: int| from <= j < i ==> is_digit(#[trigger] v@[j]),
        decreases n - i,
    {
        i = i + 1;
    }
    proof {
        let r = digit_run_end(v@, from as int);
        if i < r {
            assert(is_digit(v@[i as int]));
            assert(false);
        }
        if i > r {
            assert(is_digit(v@[r]));
            assert(false);
        }
    }
    i
}

/// Decomposition of an event name into (peripheral, channel, signal).
///
/// Three forms are recognized, in order: a channel in the peripheral part
/// (`GPT0_COUNTER_OVERFLOW`, `SCI1_RXI`), a channel at the end of the
/// signal (`ICU_IRQ0`), and no channel at all (`DTC_COMPLETE`).  Anything
/// else yields nothing.  A channel too large for a `u32` is dropped while
/// the other two parts are kept.
pub open spec fn spec_parse_interrupt_name(s: Seq<char>) -> (
    Option<Seq<char>>,
    Option<u32>,
    Option<Seq<char>>,
) {
    let a = upper_run(s, 0);
    let d = digit_run_end(s, a);
    if a >= 1 && d > a && d < s.len() && s[d] == '_' && d + 1 < s.len() {
        // letters, channel digits, '_', signal
        (Some(s.take(a)), chan_of(s.subrange(a, d)), Some(s.skip(d + 1)))
    } else if a >= 1 && a < s.len() && s[a] == '_' {
        let b = upper_run(s, a + 1);
        let e = digit_run_end(s, b);
        if b > a + 1 && e > b && e == s.len() {
            // letters, '_', signal letters, channel digits
            (Some(s.take(a)), chan_of(s.subrange(b, e)), Some(s.subrange(a + 1, b)))
        } else if a + 1 < s.len() {
            // letters, '_', signal
            (Some(s.take(a)), None, Some(s.skip(a + 1)))
        } else {
            (None, None, None)
        }
    } else {
        (None, None, None)
    }
}

/// Parse an event name into its (peripheral, channel, signal) parts.
pub fn parse_interrupt_name(name: &str) -> (r: (Option<String>, Option<u32>, Option<String>))
    ensures
        r.0.deep_view() == spec_parse_interrupt_name(name@).0,
        r.1 == spec_parse_interrupt_name(name@).1,
        r.2.deep_view() == spec_parse_interrupt_name(name@).2,
{
    let v = str_chars(name);
    let n = v.len();
    proof {
        lemma_upper_run(v@, 0);
    }
    let a = scan_upper(&v, 0);
    proof {
        lemma_digit_run_end(v@, a as int);
    }
    let d = scan_digits(&v, a);
    if 1 <= a && d > a && d < n && v[d] == '_' && d + 1 < n {
        let peripheral = chars_substring(&v, 0, a);
        let signal = chars_substring(&v, d + 1, n);
        proof {
            assert(v@.take(a as int) =~= v@.subrange(0, a as int));
            assert(v@.skip(d + 1) =~= v@.subrange(d + 1, n as int));
        }
        let channel = parse_digits(&v, a, d);
        return (Some(peripheral), channel, Some(signal));
    }
    if 1 <= a && a < n && v[a] == '_' {
        proof {
            lemma_upper_run(v@, a + 1);
        }
        let b = scan_upper(&v, a + 1);
        proof {
            lemma_digit_run_end(v@, b as int);
        }
        let e = scan_digits(&v, b);
        if b > a + 1 && e > b && e == n {
            let peripheral = chars_substring(&v, 0, a);
            let signal = chars_substring(&v, a + 1, b);
            proof {
                assert(v@.take(a as int) =~= v@.subrange(0, a as int));
            }
            let channel = parse_digits(&v, b, e);
            return (Some(peripheral), channel, Some(signal));
        }
        if a + 1 < n {
            let peripheral = chars_substring(&v, 0, a);
            let signal = chars_substring(&v, a + 1, n);
            proof {
                assert(v@.take(a as int) =~= v@.subrange(0, a as int));
                assert(v@.skip(a + 1) =~= v@.subrange(a + 1, n as int));
            }
            return (Some(peripheral), None, Some(signal));
        }
        return (None, None, None);
    }
    (None, None, None)
}

/// Strictly increasing, hence duplicate-free.
pub open spec fn sorted_unique(s: Seq<u32>) -> bool {
    forall|i: int, j: int| 0 <= i < j < s.len() ==> s[i] < s[j]
}

/// Insertion of a slot into a sorted list without duplicates.
pub open spec fn spec_insert_slot(s: Seq<u32>, x: u32) -> Seq<u32>
    decreases s.len(),
{
    if s.len() == 0 {
        seq![x]
    } else if x < s[0] {
        seq![x] + s
    } else if x == s[0] {
        s
    } else {
        seq![s[0]] + spec_insert_slot(s.skip(1), x)
    }
}

/// Union of a sorted slot list with further slots, one at a time.
pub open spec fn spec_merge_slots(s: Seq<u32>, add: Seq<u32>) -> Seq<u32>
    decreases add.len(),
{
    if add.len() == 0 {
        s
    } else {
        spec_merge_slots(spec_insert_slot(s, add[0]), add.skip(1))
    }
}

/// Inserting one slot keeps the list sorted and duplicate-free, and the
/// contents are the old ones plus the new slot.
pub proof fn lemma_insert_slot(s: Seq<u32>, x: u32)
    requires
        sorted_unique(s),
    ensures
        sorted_unique(spec_insert_slot(s, x)),
        forall|y: u32|
            #![trigger spec_insert_slot(s, x).contains(y)]
            spec_insert_slot(s, x).contains(y) <==> s.contains(y) || y == x,
    decreases s.len(),
{
    let r = spec_insert_slot(s, x);
    if s.len() == 0 {
        assert(r[0] == x);
        assert forall|y: u32| r.contains(y) implies s.contains(y) || y == x by {
            let i = choose|i: int| 0 <= i < r.len() && r[i] == y;
        }
    } else if x < s[0] {
        assert forall|y: u32| s.contains(y) || y == x implies r.contains(y) by {
            if s.contains(y) {
                let i = choose|i: int| 0 <= i < s.len() && s[i] == y;
                assert(r[i + 1] == y);
            } else {
                assert(r[0] == x);
            }
        }
        assert forall|y: u32| r.contains(y) implies s.contains(y) || y == x by {
            let i = choose|i: int| 0 <= i < r.len() && r[i] == y;
            if i > 0 {
                assert(s[i - 1] == y);
            }
        }
    } else if x == s[0] {
        assert(s[0] == x);
    } else {
        assert forall|i2: int, j2: int|
            0 <= i2 < j2 < s.skip(1).len() implies s.skip(1)[i2] < s.skip(1)[j2] by {
            assert(s.skip(1)[i2] == s[i2 + 1]);
            assert(s.skip(1)[j2] == s[j2 + 1]);
        }
        lemma_insert_slot(s.skip(1), x);
        let t = spec_insert_slot(s.skip(1), x);
        assert(r == seq![s[0]] + t);
        assert(r[0] == s[0]);
        assert forall|j: int| 1 <= j < r.len() implies r[0] < #[trigger] r[j] by {
            assert(r[j] == t[j - 1]);
            assert(t.contains(t[j - 1]));
            assert(s.skip(1).contains(r[j]) || r[j] == x);
            if r[j] != x {
                let m = choose|m: int| 0 <= m < s.skip(1).len() && s.skip(1)[m] == r[j];
                assert(s.skip(1)[m] == s[m + 1]);
                assert(s[0] < s[m + 1]);
            }
        }
        assert forall|i: int, j: int| 0 <= i < j < r.len() implies r[i] < r[j] by {
            if i > 0 {
                assert(r[i] == t[i - 1]);
                assert(r[j] == t[j - 1]);
            }
        }
        assert forall|y: u32| r.contains(y) implies s.contains(y) || y == x by {
            let i = choose|i: int| 0 <= i < r.len() && r[i] == y;
            if i == 0 {
                assert(s[0] == y);
            } else {
                assert(t[i - 1] == y);
                assert(t.contains(y));
                if s.skip(1).contains(y) {
                    let m = choose|m: int| 0 <= m < s.skip(1).len() && s.skip(1)[m] == y;
                    assert(s[m + 1] == y);
                }
            }
        }
        assert forall|y: u32| s.contains(y) || y == x implies r.contains(y) by {
            lemma_insert_slot(s.skip(1), x);
            if s.contains(y) {
                let i = choose|i: int| 0 <= i < s.len() && s[i] == y;
                if i == 0 {
                    assert(r[0] == y);
                } else {
                    assert(s.skip(1)[i - 1] == y);
                    assert(s.skip(1).contains(y));
                    assert(t.contains(y));
                    let m = choose|m: int| 0 <= m < t.len() && t[m] == y;
                    assert(r[m + 1] == y);
                }
            } else {
                assert(t.contains(x));
                assert(t.contains(y));
                let m = choose|m: int| 0 <= m < t.len() && t[m] == y;
                assert(r[m + 1] == y);
            }
        }
    }
}

/// Merging slot lists yields the sorted, de-duplicated union.
pub proof fn lemma_merge_slots_union(s: Seq<u32>, add: Seq<u32>)
    requires
        sorted_unique(s),
    ensures
        sorted_unique(spec_merge_slots(s, add)),
        forall|y: u32|
            #![trigger spec_merge_slots(s, add).contains(y)]
            spec_merge_slots(s, add).contains(y) <==> s.contains(y) || add.contains(y),
    decreases add.len(),
{
    if add.len() > 0 {
        lemma_insert_slot(s, add[0]);
        lemma_merge_slots_union(spec_insert_slot(s, add[0]), add.skip(1));
        let r = spec_merge_slots(s, add);
        assert forall|y: u32| r.contains(y) implies s.contains(y) || add.contains(y) by {
            if add.skip(1).contains(y) {
                let i = choose|i: int| 0 <= i < add.skip(1).len() && add.skip(1)[i] == y;
                assert(add[i + 1] == y);
            } else if y == add[0] {
                assert(add.contains(y)) by {
                    assert(add[0] == y);
                }
            }
        }
        assert forall|y: u32| s.contains(y) || add.contains(y) implies r.contains(y) by {
            lemma_insert_slot(s, add[0]);
            lemma_merge_slots_union(spec_insert_slot(s, add[0]), add.skip(1));
            let mid = spec_insert_slot(s, add[0]);
            assert(r == spec_merge_slots(mid, add.skip(1)));
            if s.contains(y) {
                assert(mid.contains(y));
            } else {
                let i = choose|i: int| 0 <= i < add.len() && add[i] == y;
                if i > 0 {
                    assert(add.skip(1)[i - 1] == y);
                    assert(add.skip(1).contains(y));
                } else {
                    assert(mid.contains(y));
                }
            }
        }
    }
}

/// [`spec_insert_slot`] leaves a prefix of smaller slots untouched.
proof fn lemma_insert_slot_split(s: Seq<u32>, x: u32, i: int)
    requires
        0 <= i <= s.len(),
        forall|j: int| 0 <= j < i ==> s[j] < x,
    ensures
        spec_insert_slot(s, x) == s.take(i) + spec_insert_slot(s.skip(i), x),
    decreases i,
{
    if i == 0 {
        assert(s.skip(0) =~= s);
        assert(s.take(0) + spec_insert_slot(s, x) =~= spec_insert_slot(s, x));
    } else {
        assert forall|j: int| 0 <= j < i - 1 implies s.skip(1)[j] < x by {
            assert(s.skip(1)[j] == s[j + 1]);
        }
        lemma_insert_slot_split(s.skip(1), x, i - 1);
        assert(s.skip(1).skip(i - 1) =~= s.skip(i));
        assert(s.skip(1).take(i - 1) =~= s.take(i).skip(1));
        assert(seq![s[0]] + (s.take(i).skip(1) + spec_insert_slot(s.skip(i), x)) =~= s.take(i)
            + spec_insert_slot(s.skip(i), x));
    }
}

/// Insert one slot into a sorted list.
#[verifier::loop_isolation(false)]
fn insert_slot(v: &mut Vec<u32>, x: u32)
    ensures
        final(v)@ == spec_insert_slot(old(v)@, x),
{
    let ghost s = v@;
    let n = v.len();
    let mut i: usize = 0;
    while i < n && v[i] < x
        invariant
            i <= n,
            forall|j: int| 0 <= j < i ==> s[j] < x,
        decreases n - i,
    {
        i = i + 1;
    }
    proof {
        lemma_insert_slot_split(s, x, i as int);
        if i < n {
            assert(s.skip(i as int)[0] == s[i as int]);
        }
    }
    if i < n && v[i] == x {
        proof {
            assert(spec_insert_slot(s.skip(i as int), x) =~= s.skip(i as int));
            assert(v@ =~= s.take(i as int) + s.skip(i as int));
        }
        return ;
    }
    proof {
        if i < n {
            assert(spec_insert_slot(s.skip(i as int), x) =~= seq![x] + s.skip(i as int));
        }
    }
    v.insert(i, x);
    proof {
        assert(v@ =~= s.take(i as int) + spec_insert_slot(s.skip(i as int), x));
    }
}

/// Merge further slots into a sorted list: union, de-duplicated, sorted.
#[verifier::loop_isolation(false)]
pub fn merge_irq_slots(v: &mut Vec<u32>, add: &Vec<u32>)
    ensures
        final(v)@ == spec_merge_slots(old(v)@, add@),
{
    let n = add.len();
    let mut i: usize = 0;
    proof {
        assert(add@.skip(0) =~= add@);
    }
    while i < n
        invariant
            i <= n,
            spec_merge_slots(old(v)@, add@) == spec_merge_slots(v@, add@.skip(i as int)),
        decreases n - i,
    {
        proof {
            assert(add@.skip(i as int)[0] == add@[i as int]);
            assert(add@.skip(i as int).skip(1) =~= add@.skip(i + 1));
        }
        insert_slot(v, add[i]);
        i = i + 1;
    }
    proof {
        assert(add@.skip(n as int).len() == 0);
    }
}

/// The group digit of an event name that ends in `_GROUP` plus one digit.
pub open spec fn spec_group_digit(s: Seq<char>) -> Option<u32> {
    if s.len() >= 7 && s.subrange(s.len() - 7, s.len() - 1) == "_GROUP"@ && is_digit(
        s[s.len() - 1],
    ) {
        Some(digit_val(s[s.len() - 1]) as u32)
    } else {
        None
    }
}

/// The four evenly spaced IRQ slots of a grouped interrupt: the group
/// digit, stepped by 8 across the 32-wide span.
pub open spec fn spec_group_slots(dg: u32) -> Seq<u32> {
    seq![dg, (dg + 8) as u32, (dg + 16) as u32, (dg + 24) as u32]
}

/// The descriptor name an event contributes to: the base name without the
/// group suffix, or the whole name.
pub open spec fn spec_base_name(s: Seq<char>) -> Seq<char> {
    match spec_group_digit(s) {
        Some(_) => s.take(s.len() - 7),
        None => s,
    }
}

/// The slots an event contributes, if it is grouped.
pub open spec fn spec_event_slots(s: Seq<char>) -> Option<Seq<u32>> {
    match spec_group_digit(s) {
        Some(dg) => Some(spec_group_slots(dg)),
        None => None,
    }
}

/// First descriptor with the given name, or -1.
pub open spec fn spec_find_name(s: Seq<InterruptV>, name: Seq<char>) -> int
    decreases s.len(),
{
    if s.len() == 0 {
        -1
    } else if s[0].name == name {
        0
    } else if spec_find_name(s.skip(1), name) == -1 {
        -1
    } else {
        spec_find_name(s.skip(1), name) + 1
    }
}

/// `spec_find_name` returns the first occurrence, or -1 when there is none.
pub proof fn lemma_find_name(s: Seq<InterruptV>, name: Seq<char>)
    ensures
        spec_find_name(s, name) == -1 ==> forall|i: int|
            0 <= i < s.len() ==> (#[trigger] s[i]).name != name,
        spec_find_name(s, name) != -1 ==> 0 <= spec_find_name(s, name) < s.len() && s[spec_find_name(
            s,
            name,
        )].name == name && (forall|i: int|
            0 <= i < spec_find_name(s, name) ==> (#[trigger] s[i]).name != name),
    decreases s.len(),
{
    if s.len() == 0 {
    } else if s[0].name == name {
    } else {
        lemma_find_name(s.skip(1), name);
        let r = spec_find_name(s.skip(1), name);
        if r == -1 {
            assert forall|i: int| 0 <= i < s.len() implies (#[trigger] s[i]).name != name by {
                if i > 0 {
                    assert(s.skip(1)[i - 1] == s[i]);
                }
            }
        } else {
            assert(s.skip(1)[r] == s[r + 1]);
            assert forall|i: int| 0 <= i < r + 1 implies (#[trigger] s[i]).name != name by {
                if i > 0 {
                    assert(s.skip(1)[i - 1] == s[i]);
                }
            }
        }
    }
}

/// Find the descriptor with the given name.
#[verifier::loop_isolation(false)]
fn find_by_name(v: &Vec<Interrupt>, name: &str) -> (r: Option<usize>)
    ensures
        match r {
            Some(i) => i < v@.len() && spec_find_name(v.deep_view(), name@) == i,
            None => spec_find_name(v.deep_view(), name@) == -1,
        },
{
    let ghost s = v.deep_view();
    proof {
        lemma_find_name(s, name@);
    }
    let n = v.len();
    let mut i: usize = 0;
    while i < n
        invariant
            i <= n,
            forall|j: int| 0 <= j < i ==> (#[trigger] s[j]).name != name@,
        decreases n - i,
    {
        proof {
            assert(s[i as int] == v@[i as int].deep_view());
        }
        if str_eq(v[i].name.as_str(), name) {
            proof {
                let f = spec_find_name(s, name@);
                if f == -1 {
                    assert(false);
                }
                if f < i {
                    assert(s[f].name == name@);
                    assert(false);
                }
                if f > i {
                    assert(false);
                }
            }
            return Some(i);
        }
        i = i + 1;
    }
    proof {
        if spec_find_name(s, name@) != -1 {
            assert(s[spec_find_name(s, name@)].name == name@);
            assert(false);
        }
    }
    None
}

/// Insertion of a descriptor before the first entry with a larger name.
pub open spec fn spec_insert_interrupt(s: Seq<InterruptV>, iv: InterruptV) -> Seq<InterruptV>
    decreases s.len(),
{
    if s.len() == 0 {
        seq![iv]
    } else if str_lt(iv.name, s[0].name) {
        seq![iv] + s
    } else {
        seq![s[0]] + spec_insert_interrupt(s.skip(1), iv)
    }
}

/// [`spec_insert_interrupt`] leaves a prefix of smaller names untouched.
proof fn lemma_insert_interrupt_split(s: Seq<InterruptV>, iv: InterruptV, i: int)
    requires
        0 <= i <= s.len(),
        forall|j: int| 0 <= j < i ==> !str_lt(iv.name, (#[trigger] s[j]).name),
    ensures
        spec_insert_interrupt(s, iv) == s.take(i) + spec_insert_interrupt(s.skip(i), iv),
    decreases i,
{
    if i == 0 {
        assert(s.skip(0) =~= s);
        assert(s.take(0) + spec_insert_interrupt(s, iv) =~= spec_insert_interrupt(s, iv));
    } else {
        assert forall|j: int| 0 <= j < i - 1 implies !str_lt(
            iv.name,
            (#[trigger] s.skip(1)[j]).name,
        ) by {
            assert(s.skip(1)[j] == s[j + 1]);
        }
        lemma_insert_interrupt_split(s.skip(1), iv, i - 1);
        assert(s.skip(1).skip(i - 1) =~= s.skip(i));
        assert(s.skip(1).take(i - 1) =~= s.take(i).skip(1));
        assert(seq![s[0]] + (s.take(i).skip(1) + spec_insert_interrupt(s.skip(i), iv)) =~= s.take(i)
            + spec_insert_interrupt(s.skip(i), iv));
    }
}

/// Insert a descriptor into the name-sorted list.
#[verifier::loop_isolation(false)]
fn insert_interrupt(v: &mut Vec<Interrupt>, iv: Interrupt)
    ensures
        final(v).deep_view() == spec_insert_interrupt(old(v).deep_view(), iv.deep_view()),
{
    let ghost s = v.deep_view();
    let n = v.len();
    let mut i: usize = 0;
    while i < n && !crate::text::str_lt_exec(iv.name.as_str(), v[i].name.as_str())
        invariant
            i <= n,
            forall|j: int| 0 <= j < i ==> !str_lt(iv.name@, (#[trigger] s[j]).name),
        decreases n - i,
    {
        proof {
            assert(s[i as int] == v@[i as int].deep_view());
        }
        i = i + 1;
    }
    proof {
        lemma_insert_interrupt_split(s, iv.deep_view(), i as int);
        if i < n {
            assert(s.skip(i as int)[0] == s[i as int]);
            assert(s[i as int] == v@[i as int].deep_view());
            assert(spec_insert_interrupt(s.skip(i as int), iv.deep_view()) =~= seq![
                iv.deep_view(),
            ] + s.skip(i as int));
        }
    }
    v.insert(i, iv);
    proof {
        assert(v.deep_view() =~= s.take(i as int) + spec_insert_interrupt(
            s.skip(i as int),
            iv.deep_view(),
        ));
    }
}

/// Append of descriptions when an event merges into an existing entry.
pub open spec fn spec_merge_desc(prev: Option<Seq<char>>, d: Seq<char>) -> Option<Seq<char>> {
    match prev {
        Some(e) => Some(e + " / "@ + d),
        None => Some(d),
    }
}

/// Merge a description into an optional existing one.
#[verifier::loop_isolation(false)]
fn merge_desc(prev: Option<String>, d: &str) -> (r: Option<String>)
    ensures
        r.deep_view() == spec_merge_desc(prev.deep_view(), d@),
{
    match prev {
        Some(e) => {
            let mut out = str_chars(e.as_str());
            let mid = str_chars(" / ");
            let mut i: usize = 0;
            while i < mid.len()
                invariant
                    i <= mid@.len(),
                    out@ == e@ + mid@.take(i as int),
                decreases mid@.len() - i,
            {
                out.push(mid[i]);
                i = i + 1;
                proof {
                    assert(out@ =~= e@ + mid@.take(i as int));
                }
            }
            proof {
                assert(mid@.take(mid@.len() as int) =~= mid@);
            }
            let tail = str_chars(d);
            let mut j: usize = 0;
            while j < tail.len()
                invariant
                    j <= tail@.len(),
                    tail@ == d@,
                    out@ == e@ + " / "@ + d@.take(j as int),
                decreases tail@.len() - j,
            {
                out.push(tail[j]);
                j = j + 1;
                proof {
                    assert(out@ =~= e@ + " / "@ + d@.take(j as int));
                }
            }
            proof {
                assert(out@ =~= e@ + " / "@ + d@);
            }
            Some(chars_to_string(&out))
        },
        None => Some(d.to_owned()),
    }
}

/// One step of the first pass: how one raw event of the interrupt
/// enumeration changes the descriptor list.  `NONE` and deprecated entries
/// are skipped; a grouped event contributes its base name and four slots;
/// an event whose name is already present merges its slots (union,
/// de-duplicated, sorted) and its description into the existing descriptor
/// instead of creating a duplicate.
pub open spec fn spec_icu_step(acc: Seq<InterruptV>, e: RawEventV) -> Seq<InterruptV> {
    if e.name == "NONE"@ || contains_seq(e.description, "DEPRECATED"@) {
        acc
    } else {
        let bname = spec_base_name(e.name);
        let irqs = spec_event_slots(e.name);
        let parsed = spec_parse_interrupt_name(bname);
        let idx = spec_find_name(acc, bname);
        if idx == -1 {
            spec_insert_interrupt(
                acc,
                InterruptV {
                    name: bname,
                    value: e.value,
                    description: Some(e.description),
                    irq_number: irqs,
                    peripheral: parsed.0,
                    channel: parsed.1,
                    signal: parsed.2,
                },
            )
        } else {
            let ex = acc[idx];
            acc.update(
                idx,
                InterruptV {
                    name: ex.name,
                    value: ex.value,
                    description: spec_merge_desc(ex.description, e.description),
                    irq_number: match (ex.irq_number, irqs) {
                        (Some(exv), Some(nv)) => Some(spec_merge_slots(exv, nv)),
                        (None, Some(nv)) => Some(nv),
                        (prev, None) => prev,
                    },
                    peripheral: ex.peripheral,
                    channel: ex.channel,
                    signal: ex.signal,
                },
            )
        }
    }
}

/// One step of the second pass: an ELC-only event adds a descriptor with
/// no slots unless its name is `NONE` or already present.
pub open spec fn spec_elc_step(acc: Seq<InterruptV>, e: RawEventV) -> Seq<InterruptV> {
    if e.name == "NONE"@ || spec_find_name(acc, e.name) != -1 {
        acc
    } else {
        let parsed = spec_parse_interrupt_name(e.name);
        spec_insert_interrupt(
            acc,
            InterruptV {
                name: e.name,
                value: e.value,
                description: Some(e.description),
                irq_number: None,
                peripheral: parsed.0,
                channel: parsed.1,
                signal: parsed.2,
            },
        )
    }
}

/// Run [`spec_icu_step`] over a whole event list.
pub open spec fn spec_icu_fold(acc: Seq<InterruptV>, events: Seq<RawEventV>) -> Seq<InterruptV>
    decreases events.len(),
{
    if events.len() == 0 {
        acc
    } else {
        spec_icu_fold(spec_icu_step(acc, events[0]), events.skip(1))
    }
}

/// Run [`spec_elc_step`] over a whole event list.
pub open spec fn spec_elc_fold(acc: Seq<InterruptV>, events: Seq<RawEventV>) -> Seq<InterruptV>
    decreases events.len(),
{
    if events.len() == 0 {
        acc
    } else {
        spec_elc_fold(spec_elc_step(acc, events[0]), events.skip(1))
    }
}

/// The descriptor list built from the two event passes of one header.
pub open spec fn spec_collect_interrupts(icu: Seq<RawEventV>, elc: Seq<RawEventV>) -> Seq<
    InterruptV,
> {
    spec_elc_fold(spec_icu_fold(Seq::empty(), icu), elc)
}

/// Apply one interrupt-enumeration event to the descriptor list.
#[verifier::loop_isolation(false)]
fn icu_step(out: &mut Vec<Interrupt>, e: &RawEvent)
    ensures
        final(out).deep_view() == spec_icu_step(old(out).deep_view(), e.deep_view()),
{
    let ghost acc = out.deep_view();
    if str_eq(e.name.as_str(), "NONE") {
        return ;
    }
    let dchars = str_chars(e.description.as_str());
    let dep = str_chars("DEPRECATED");
    if vec_contains_seq(&dchars, &dep) {
        return ;
    }
    let v = str_chars(e.name.as_str());
    let n = v.len();
    let grp = str_chars("_GROUP");
    proof {
        reveal_strlit("_GROUP");
        assert(grp@.len() == 6);
    }
    let grouped = n >= 7 && vec_eq_at(&v, n - 7, &grp) && '0' <= v[n - 1] && v[n - 1] <= '9';
    let (bname, irqs): (String, Option<Vec<u32>>) = if grouped {
        let dg = (v[n - 1] as u32) - 48;
        let mut slots: Vec<u32> = Vec::new();
        slots.push(dg);
        slots.push(dg + 8);
        slots.push(dg + 16);
        slots.push(dg + 24);
        proof {
            assert(spec_group_digit(e.name@) == Some(dg));
            assert(slots@ =~= spec_group_slots(dg));
            assert(slots.deep_view() =~= slots@);
            assert(e.name@.take(n - 7) =~= e.name@.subrange(0, n - 7));
        }
        (chars_substring(&v, 0, n - 7), Some(slots))
    } else {
        proof {
            assert(spec_group_digit(e.name@) is None);
        }
        (e.name.clone(), None)
    };
    let (peripheral, channel, signal) = parse_interrupt_name(bname.as_str());
    match find_by_name(out, bname.as_str()) {
        None => {
            insert_interrupt(
                out,
                Interrupt {
                    name: bname,
                    value: e.value,
                    description: Some(e.description.clone()),
                    irq_number: irqs,
                    peripheral,
                    channel,
                    signal,
                },
            );
        },
        Some(i) => {
            let ex = out.remove(i);
            let ghost exv = ex.deep_view();
            proof {
                assert(exv == acc[i as int]);
            }
            let merged_irq: Option<Vec<u32>> = match (ex.irq_number, irqs) {
                (Some(exs), Some(nv)) => {
                    let ghost exs_d = exs.deep_view();
                    proof {
                        assert(exs_d =~= exs@);
                    }
                    let mut merged = exs;
                    crate::interrupts::merge_irq_slots(&mut merged, &nv);
                    proof {
                        assert(merged.deep_view() =~= merged@);
                        assert(nv.deep_view() =~= nv@);
                    }
                    Some(merged)
                },
                (None, Some(nv)) => {
                    proof {
                        assert(nv.deep_view() =~= nv@);
                    }
                    Some(nv)
                },
                (prev, None) => prev,
            };
            proof {
                assert(merged_irq.deep_view() == (match (exv.irq_number, spec_event_slots(
                    e.name@,
                )) {
                    (Some(exsv), Some(nvv)) => Some(spec_merge_slots(exsv, nvv)),
                    (None, Some(nvv)) => Some(nvv),
                    (prevv, None) => prevv,
                }));
            }
            let merged = Interrupt {
                name: ex.name,
                value: ex.value,
                description: merge_desc(ex.description, e.description.as_str()),
                irq_number: merged_irq,
                peripheral: ex.peripheral,
                channel: ex.channel,
                signal: ex.signal,
            };
            out.insert(i, merged);
            proof {
                assert(out.deep_view() =~= acc.update(i as int, out.deep_view()[i as int]));
                assert(out.deep_view()[i as int] == merged.deep_view());
            }
        },
    }
}

/// Apply one ELC-only event to the descriptor list.
#[verifier::loop_isolation(false)]
fn elc_step(out: &mut Vec<Interrupt>, e: &RawEvent)
    ensures
        final(out).deep_view() == spec_elc_step(old(out).deep_view(), e.deep_view()),
{
    if str_eq(e.name.as_str(), "NONE") {
        return ;
    }
    match find_by_name(out, e.name.as_str()) {
        Some(_) => {},
        None => {
            let (peripheral, channel, signal) = parse_interrupt_name(e.name.as_str());
            insert_interrupt(
                out,
                Interrupt {
                    name: e.name.clone(),
                    value: e.value,
                    description: Some(e.description.clone()),
                    irq_number: None,
                    peripheral,
                    channel,
                    signal,
                },
            );
        },
    }
}

/// Build a family's descriptor list from the events of its header: the
/// interrupt events first (with grouping and merging), then the ELC-only
/// events.  The result is sorted by descriptor name.
#[verifier::loop_isolation(false)]
pub fn collect_interrupts(icu: &Vec<RawEvent>, elc: &Vec<RawEvent>) -> (r: Vec<Interrupt>)
    ensures
        r.deep_view() == spec_collect_interrupts(icu.deep_view(), elc.deep_view()),
{
    let ghost icuv = icu.deep_view();
    let ghost elcv = elc.deep_view();
    let mut out: Vec<Interrupt> = Vec::new();
    proof {
        assert(out.deep_view() =~= Seq::<InterruptV>::empty());
        assert(icuv.skip(0) =~= icuv);
    }
    let n1 = icu.len();
    let mut i: usize = 0;
    while i < n1
        invariant
            i <= n1,
            spec_icu_fold(Seq::empty(), icuv) == spec_icu_fold(
                out.deep_view(),
                icuv.skip(i as int),
            ),
        decreases n1 - i,
    {
        proof {
            assert(icuv.skip(i as int)[0] == icuv[i as int]);
            assert(icuv.skip(i as int).skip(1) =~= icuv.skip(i + 1));
            assert(icuv[i as int] == icu@[i as int].deep_view());
        }
        icu_step(&mut out, &icu[i]);
        i = i + 1;
    }
    proof {
        assert(icuv.skip(n1 as int).len() == 0);
        assert(elcv.skip(0) =~= elcv);
    }
    let n2 = elc.len();
    let mut j: usize = 0;
    while j < n2
        invariant
            j <= n2,
            spec_elc_fold(spec_icu_fold(Seq::empty(), icuv), elcv) == spec_elc_fold(
                out.deep_view(),
                elcv.skip(j as int),
            ),
        decreases n2 - j,
    {
        proof {
            assert(elcv.skip(j as int)[0] == elcv[j as int]);
            assert(elcv.skip(j as int).skip(1) =~= elcv.skip(j + 1));
            assert(elcv[j as int] == elc@[j as int].deep_view());
        }
        elc_step(&mut out, &elc[j]);
        j = j + 1;
    }
    proof {
        assert(elcv.skip(n2 as int).len() == 0);
    }
    out
}

/// A grouped descriptor with group digit `dg` expands to exactly the slots
/// `dg`, `dg+8`, `dg+16`, `dg+24`, and merging them into an existing sorted
/// slot list yields the duplicate-free, sorted union of the two.
pub proof fn lemma_group_expansion(name: Seq<char>, dg: u32, existing: Seq<u32>)
    requires
        spec_group_digit(name) == Some(dg),
        sorted_unique(existing),
    ensures
        dg <= 9,
        spec_event_slots(name) == Some(seq![dg, (dg + 8) as u32, (dg + 16) as u32, (dg + 24) as u32]),
        sorted_unique(spec_merge_slots(existing, spec_group_slots(dg))),
        forall|y: u32|
            #![trigger spec_merge_slots(existing, spec_group_slots(dg)).contains(y)]
            spec_merge_slots(existing, spec_group_slots(dg)).contains(y) <==> existing.contains(y)
                || y == dg || y == dg + 8 || y == dg + 16 || y == dg + 24,
{
    lemma_merge_slots_union(existing, spec_group_slots(dg));
    let slots = spec_group_slots(dg);
    assert(slots[0] == dg && slots[1] == dg + 8 && slots[2] == dg + 16 && slots[3] == dg + 24);
    assert forall|y: u32|
        slots.contains(y) <==> (y == dg || y == dg + 8 || y == dg + 16 || y == dg + 24) by {
        if y == dg || y == dg + 8 || y == dg + 16 || y == dg + 24 {
            assert(slots.contains(y)) by {
                if y == dg {
                    assert(slots[0] == y);
                } else if y == dg + 8 {
                    assert(slots[1] == y);
                } else if y == dg + 16 {
                    assert(slots[2] == y);
                } else {
                    assert(slots[3] == y);
                }
            }
        }
    }
}

} // verus!
