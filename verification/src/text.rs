//! Character and string helpers shared by the name grammar and the rule
//! tables.  All vendor names are ASCII; the case folding here is the ASCII
//! one, applied character by character, and leaves every other character
//! unchanged.

use vstd::prelude::*;
use vstd::string::*;

verus! {

/// An ASCII decimal digit.
pub open spec fn is_digit(c: char) -> bool {
    '0' <= c && c <= '9'
}

/// An ASCII upper-case letter.
pub open spec fn is_upper(c: char) -> bool {
    'A' <= c && c <= 'Z'
}

/// An ASCII lower-case letter.
pub open spec fn is_lower(c: char) -> bool {
    'a' <= c && c <= 'z'
}

/// ASCII upper-casing of one character.
pub open spec fn upper_char(c: char) -> char {
    if is_lower(c) {
        (c as u32 - 32) as char
    } else {
        c
    }
}

/// ASCII lower-casing of one character.
pub open spec fn lower_char(c: char) -> char {
    if is_upper(c) {
        (c as u32 + 32) as char
    } else {
        c
    }
}

/// ASCII upper-casing of a whole string.
pub open spec fn upper(s: Seq<char>) -> Seq<char> {
    s.map_values(|c: char| upper_char(c))
}

/// ASCII lower-casing of a whole string.
pub open spec fn lower(s: Seq<char>) -> Seq<char> {
    s.map_values(|c: char| lower_char(c))
}

pub fn upper_char_exec(c: char) -> (r: char)
    ensures
        r == upper_char(c),
{
    if 'a' <= c && c <= 'z' {
        ((c as u32 - 32) as u8) as char
    } else {
        c
    }
}

pub fn lower_char_exec(c: char) -> (r: char)
    ensures
        r == lower_char(c),
{
    if 'A' <= c && c <= 'Z' {
        ((c as u32 + 32) as u8) as char
    } else {
        c
    }
}

/// The characters of a string, as a vector.
pub fn str_chars(s: &str) -> (v: Vec<char>)
    ensures
        v@ == s@,
{
    let n = s.unicode_len();
    let mut v: Vec<char> = Vec::new();
    let mut i: usize = 0;
    while i < n
        invariant
            i <= n,
            n == s@.len(),
            v@ == s@.take(i as int),
        decreases n - i,
    {
        v.push(s.get_char(i));
        i = i + 1;
        proof {
            assert(v@ =~= s@.take(i as int));
        }
    }
    proof {
        assert(v@ =~= s@);
    }
    v
}

/// The characters of a string, ASCII upper-cased, as a vector.
pub fn upper_chars(s: &str) -> (v: Vec<char>)
    ensures
        v@ == upper(s@),
{
    let n = s.unicode_len();
    let mut v: Vec<char> = Vec::new();
    let mut i: usize = 0;
    while i < n
        invariant
            i <= n,
            n == s@.len(),
            v@ == upper(s@).take(i as int),
        decreases n - i,
    {
        v.push(upper_char_exec(s.get_char(i)));
        i = i + 1;
        proof {
            assert(v@ =~= upper(s@).take(i as int));
        }
    }
    proof {
        assert(v@ =~= upper(s@));
    }
    v
}

/// A string with the given characters.
///
/// Relies on `String`'s `FromIterator<char>` implementation, which collects
/// exactly the characters that the iterator yields, in order.
#[verifier::external_body]
pub fn chars_to_string(v: &Vec<char>) -> (s: String)
    ensures
        s@ == v@,
{
    v.iter().collect()
}

/// String equality, decided character by character.
pub fn str_eq(a: &str, b: &str) -> (r: bool)
    ensures
        r == (a@ == b@),
{
    let na = a.unicode_len();
    let nb = b.unicode_len();
    if na != nb {
        proof {
            assert(a@ != b@);
        }
        return false;
    }
    let mut i: usize = 0;
    while i < na
        invariant
            i <= na,
            na == a@.len(),
            na == b@.len(),
            forall|j: int| 0 <= j < i ==> a@[j] == b@[j],
        decreases na - i,
    {
        if a.get_char(i) != b.get_char(i) {
            proof {
                assert(a@[i as int] != b@[i as int]);
            }
            return false;
        }
        i = i + 1;
    }
    proof {
        assert(a@ =~= b@);
    }
    true
}

/// `s` begins with `w`.
pub open spec fn starts_with(s: Seq<char>, w: Seq<char>) -> bool {
    s.len() >= w.len() && s.take(w.len() as int) == w
}

/// `w` occurs somewhere in `s`.
pub open spec fn contains_seq(s: Seq<char>, w: Seq<char>) -> bool {
    exists|i: int| 0 <= i <= s.len() && starts_with(#[trigger] s.skip(i), w)
}

/// The characters of `v` from position `at` on begin with `w`.
#[verifier::loop_isolation(false)]
pub fn vec_eq_at(v: &Vec<char>, at: usize, w: &Vec<char>) -> (r: bool)
    requires
        at + w@.len() <= v@.len(),
    ensures
        r == (v@.subrange(at as int, at + w@.len()) == w@),
{
    let ghost sl = v@.subrange(at as int, at + w@.len());
    let vn = v.len();
    let n = w.len();
    let mut t: usize = 0;
    while t < n
        invariant
            t <= n,
            forall|m: int| 0 <= m < t ==> sl[m] == w@[m],
        decreases n - t,
    {
        if v[at + t] != w[t] {
            proof {
                assert(sl[t as int] == v@[at + t]);
            }
            return false;
        }
        proof {
            assert(sl[t as int] == v@[at + t]);
        }
        t = t + 1;
    }
    proof {
        assert(sl =~= w@);
    }
    true
}

/// `v` begins with `w`.
pub fn vec_starts_with(v: &Vec<char>, w: &Vec<char>) -> (r: bool)
    ensures
        r == starts_with(v@, w@),
{
    if v.len() < w.len() {
        return false;
    }
    let r = vec_eq_at(v, 0, w);
    proof {
        assert(v@.subrange(0, w@.len() as int) =~= v@.take(w@.len() as int));
    }
    r
}

/// `w` occurs somewhere in `v`.
#[verifier::loop_isolation(false)]
pub fn vec_contains_seq(v: &Vec<char>, w: &Vec<char>) -> (r: bool)
    ensures
        r == contains_seq(v@, w@),
{
    if v.len() < w.len() {
        return false;
    }
    if w.len() == 0 {
        proof {
            assert(v@.skip(0).take(0) =~= w@);
            assert(starts_with(v@.skip(0), w@));
        }
        return true;
    }
    let last = v.len() - w.len();
    let mut i: usize = 0;
    while i <= last
        invariant
            i <= last + 1,
            forall|m: int| 0 <= m < i ==> !starts_with(#[trigger] v@.skip(m), w@),
        decreases last + 1 - i,
    {
        if vec_eq_at(v, i, w) {
            proof {
                assert(v@.skip(i as int).take(w@.len() as int) =~= v@.subrange(
                    i as int,
                    i + w@.len(),
                ));
                assert(starts_with(v@.skip(i as int), w@));
            }
            return true;
        }
        proof {
            assert(v@.skip(i as int).take(w@.len() as int) =~= v@.subrange(i as int, i + w@.len()));
        }
        i = i + 1;
    }
    proof {
        assert forall|m: int| 0 <= m <= v@.len() implies !starts_with(v@.skip(m), w@) by {
            if m > last {
                assert(v@.skip(m).len() < w@.len());
            }
        }
    }
    false
}

/// All characters of `s[from..to)` are ASCII digits.
pub open spec fn digit_run(s: Seq<char>, from: int, to: int) -> bool {
    forall|j: int| from <= j < to ==> is_digit(#[trigger] s[j])
}

/// Decide [`digit_run`] over `v[from..to)`.
#[verifier::loop_isolation(false)]
pub fn all_digits(v: &Vec<char>, from: usize, to: usize) -> (r: bool)
    requires
        from <= to <= v@.len(),
    ensures
        r == digit_run(v@, from as int, to as int),
{
    let mut i = from;
    while i < to
        invariant
            from <= i <= to,
            forall|j: int| from <= j < i ==> is_digit(#[trigger] v@[j]),
        decreases to - i,
    {
        let c = v[i];
        if !('0' <= c && c <= '9') {
            return false;
        }
        i = i + 1;
    }
    true
}

/// Length of the run of digits that ends the string.
pub open spec fn trailing_digits(s: Seq<char>) -> int
    decreases s.len(),
{
    if s.len() == 0 {
        0
    } else if !is_digit(s[s.len() - 1]) {
        0
    } else {
        trailing_digits(s.take(s.len() - 1)) + 1
    }
}

/// `trailing_digits` counts the maximal digit run at the end: everything in
/// it is a digit, and the character just before it (if any) is not.
pub proof fn lemma_trailing_digits(s: Seq<char>)
    ensures
        0 <= trailing_digits(s) <= s.len(),
        digit_run(s, s.len() - trailing_digits(s), s.len() as int),
        trailing_digits(s) == s.len() || !is_digit(s[s.len() - trailing_digits(s) - 1]),
    decreases s.len(),
{
    if s.len() == 0 {
    } else if !is_digit(s[s.len() - 1]) {
    } else {
        let head = s.take(s.len() - 1);
        lemma_trailing_digits(head);
        let k = trailing_digits(head);
        assert(forall|j: int| 0 <= j < head.len() ==> head[j] == s[j]);
    }
}

/// Compute [`trailing_digits`] of `v`.
#[verifier::loop_isolation(false)]
pub fn count_trailing_digits(v: &Vec<char>) -> (k: usize)
    ensures
        k == trailing_digits(v@),
{
    proof {
        lemma_trailing_digits(v@);
    }
    let n = v.len();
    let mut k: usize = 0;
    while k < n && '0' <= v[n - 1 - k] && v[n - 1 - k] <= '9'
        invariant
            k <= n,
            forall|j: int| n - k <= j < n ==> is_digit(#[trigger] v@[j]),
        decreases n - k,
    {
        k = k + 1;
    }
    proof {
        let tk = trailing_digits(v@);
        if k < tk {
            assert(is_digit(v@[n - k - 1]));
            assert(false);
        }
        if k > tk {
            assert(is_digit(v@[n - tk - 1]));
            assert(false);
        }
    }
    k
}

/// Numeric value of a digit character.
pub open spec fn digit_val(c: char) -> int {
    c as int - 48
}

/// Value of a string of decimal digits, most significant first.
pub open spec fn digits_val(s: Seq<char>) -> int
    decreases s.len(),
{
    if s.len() == 0 {
        0
    } else {
        digits_val(s.take(s.len() - 1)) * 10 + digit_val(s[s.len() - 1])
    }
}

/// The value of a digit string is non-negative and no smaller than the value
/// of any of its prefixes.
pub proof fn lemma_digits_val_prefix(s: Seq<char>, k: int)
    requires
        0 <= k <= s.len(),
        forall|j: int| 0 <= j < s.len() ==> is_digit(s[j]),
    ensures
        0 <= digits_val(s.take(k)) <= digits_val(s),
    decreases s.len(),
{
    if s.len() == 0 {
        assert(s.take(k) =~= s);
    } else if k == s.len() {
        assert(s.take(k) =~= s);
        lemma_digits_val_prefix(s.take(s.len() - 1), s.len() - 1);
        assert(s.take(s.len() - 1).take(s.len() - 1) =~= s.take(s.len() - 1));
    } else {
        let head = s.take(s.len() - 1);
        assert(forall|j: int| 0 <= j < head.len() ==> is_digit(head[j]));
        lemma_digits_val_prefix(head, k);
        assert(head.take(k) =~= s.take(k));
        lemma_digits_val_prefix(head, head.len() as int);
        assert(head.take(head.len() as int) =~= head);
    }
}

/// Parse the digit run `v[from..to]` as a `u32`; `None` when the value does
/// not fit.
#[verifier::loop_isolation(false)]
pub fn parse_digits(v: &Vec<char>, from: usize, to: usize) -> (r: Option<u32>)
    requires
        from <= to <= v@.len(),
        forall|j: int| from <= j < to ==> is_digit(v@[j]),
    ensures
        match r {
            Some(n) => n == digits_val(v@.subrange(from as int, to as int)),
            None => digits_val(v@.subrange(from as int, to as int)) > u32::MAX,
        },
{
    let ghost digits = v@.subrange(from as int, to as int);
    proof {
        assert(forall|j: int| 0 <= j < digits.len() ==> is_digit(#[trigger] digits[j]));
    }
    let mut acc: u64 = 0;
    let mut i = from;
    while i < to
        invariant
            from <= i <= to,
            acc <= u32::MAX,
            acc == digits_val(digits.take(i - from)),
        decreases to - i,
    {
        let c = v[i];
        let d = (c as u32 - 48) as u64;
        let val = acc * 10 + d;
        proof {
            assert(digits[i - from] == v@[i as int]);
            assert(digits.take(i + 1 - from).take(i - from) =~= digits.take(i - from));
            assert(digits.take(i + 1 - from)[i - from] == digits[i - from]);
            assert(digits_val(digits.take(i + 1 - from)) == val);
        }
        if val > 0xFFFF_FFFF {
            proof {
                lemma_digits_val_prefix(digits, i + 1 - from);
            }
            return None;
        }
        acc = val;
        i = i + 1;
    }
    proof {
        assert(digits.take(to - from) =~= digits);
    }
    Some(acc as u32)
}

/// The characters `v[from..to]`, as a string.
#[verifier::loop_isolation(false)]
pub fn chars_substring(v: &Vec<char>, from: usize, to: usize) -> (s: String)
    requires
        from <= to <= v@.len(),
    ensures
        s@ == v@.subrange(from as int, to as int),
{
    let mut w: Vec<char> = Vec::new();
    let mut i = from;
    while i < to
        invariant
            from <= i <= to,
            w@ == v@.subrange(from as int, i as int),
        decreases to - i,
    {
        w.push(v[i]);
        i = i + 1;
        proof {
            assert(w@ =~= v@.subrange(from as int, i as int));
        }
    }
    chars_to_string(&w)
}

/// Lexicographic order on strings, by character code points.  This is the
/// order in which Rust compares strings, since UTF-8 preserves code-point
/// order.
pub open spec fn str_lt(a: Seq<char>, b: Seq<char>) -> bool
    decreases a.len(),
{
    if b.len() == 0 {
        false
    } else if a.len() == 0 {
        true
    } else if a[0] != b[0] {
        a[0] < b[0]
    } else {
        str_lt(a.skip(1), b.skip(1))
    }
}

/// Two strings with an equal prefix compare as their remainders do.
pub proof fn lemma_str_lt_skip(a: Seq<char>, b: Seq<char>, i: int)
    requires
        0 <= i <= a.len(),
        i <= b.len(),
        forall|j: int| 0 <= j < i ==> a[j] == b[j],
    ensures
        str_lt(a, b) == str_lt(a.skip(i), b.skip(i)),
    decreases i,
{
    if i > 0 {
        assert(a[0] == b[0]);
        assert forall|j: int| 0 <= j < i - 1 implies a.skip(1)[j] == b.skip(1)[j] by {
            assert(a.skip(1)[j] == a[j + 1]);
            assert(b.skip(1)[j] == b[j + 1]);
        }
        lemma_str_lt_skip(a.skip(1), b.skip(1), i - 1);
        assert(a.skip(1).skip(i - 1) =~= a.skip(i));
        assert(b.skip(1).skip(i - 1) =~= b.skip(i));
        assert(str_lt(a, b) == str_lt(a.skip(1), b.skip(1)));
    } else {
        assert(a.skip(0) =~= a);
        assert(b.skip(0) =~= b);
    }
}

/// Decide [`str_lt`] for two strings.
#[verifier::loop_isolation(false)]
pub fn str_lt_exec(a: &str, b: &str) -> (r: bool)
    ensures
        r == str_lt(a@, b@),
{
    let na = a.unicode_len();
    let nb = b.unicode_len();
    let min = if na < nb {
        na
    } else {
        nb
    };
    let mut i: usize = 0;
    while i < min
        invariant
            i <= min,
            forall|j: int| 0 <= j < i ==> a@[j] == b@[j],
        decreases min - i,
    {
        let ca = a.get_char(i);
        let cb = b.get_char(i);
        if ca != cb {
            proof {
                lemma_str_lt_skip(a@, b@, i as int);
            }
            return ca < cb;
        }
        i = i + 1;
    }
    proof {
        lemma_str_lt_skip(a@, b@, min as int);
    }
    na < nb
}

/// Insertion of a string into a sorted sequence without duplicates: before
/// the first entry it is smaller than, dropped if already present.
pub open spec fn spec_insert_sorted(s: Seq<Seq<char>>, x: Seq<char>) -> Seq<Seq<char>>
    decreases s.len(),
{
    if s.len() == 0 {
        seq![x]
    } else if str_lt(x, s[0]) {
        seq![x] + s
    } else if x == s[0] {
        s
    } else {
        seq![s[0]] + spec_insert_sorted(s.skip(1), x)
    }
}

/// [`spec_insert_sorted`] leaves a prefix of entries smaller than `x`
/// untouched.
pub proof fn lemma_insert_sorted_split(s: Seq<Seq<char>>, x: Seq<char>, i: int)
    requires
        0 <= i <= s.len(),
        forall|j: int| 0 <= j < i ==> str_lt(#[trigger] s[j], x),
    ensures
        spec_insert_sorted(s, x) == s.take(i) + spec_insert_sorted(s.skip(i), x),
    decreases i,
{
    if i == 0 {
        assert(s.take(0) + spec_insert_sorted(s.skip(0), x) =~= spec_insert_sorted(s.skip(0), x));
        assert(s.skip(0) =~= s);
    } else {
        // s[0] < x, so x is neither smaller than nor equal to s[0]
        assert(str_lt(s[0], x));
        lemma_str_lt_asym(s[0], x);
        assert forall|j: int| 0 <= j < i - 1 implies str_lt(#[trigger] s.skip(1)[j], x) by {
            assert(s.skip(1)[j] == s[j + 1]);
        }
        lemma_insert_sorted_split(s.skip(1), x, i - 1);
        assert(s.skip(1).skip(i - 1) =~= s.skip(i));
        assert(s.skip(1).take(i - 1) =~= s.take(i).skip(1));
        assert(seq![s[0]] + (s.take(i).skip(1) + spec_insert_sorted(s.skip(i), x)) =~= s.take(i)
            + spec_insert_sorted(s.skip(i), x));
    }
}

/// `str_lt` is irreflexive and asymmetric.
pub proof fn lemma_str_lt_asym(a: Seq<char>, b: Seq<char>)
    ensures
        str_lt(a, b) ==> !str_lt(b, a),
        !str_lt(a, a),
    decreases a.len(),
{
    if a.len() > 0 {
        lemma_str_lt_asym(a.skip(1), a.skip(1));
    }
    if a.len() > 0 && b.len() > 0 && a[0] == b[0] {
        lemma_str_lt_asym(a.skip(1), b.skip(1));
    }
}

/// Insert a string into a sorted, duplicate-free vector, keeping it so.
#[verifier::loop_isolation(false)]
pub fn insert_sorted(v: &mut Vec<String>, x: String)
    ensures
        final(v).deep_view() == spec_insert_sorted(old(v).deep_view(), x@),
{
    let ghost s = v.deep_view();
    let n = v.len();
    let mut i: usize = 0;
    while i < n && str_lt_exec(v[i].as_str(), x.as_str())
        invariant
            i <= n,
            forall|j: int| 0 <= j < i ==> str_lt(#[trigger] s[j], x@),
        decreases n - i,
    {
        proof {
            assert(s[i as int] == v@[i as int]@);
        }
        i = i + 1;
    }
    proof {
        lemma_insert_sorted_split(s, x@, i as int);
        assert(s.skip(i as int).len() == n - i);
        if i < n {
            assert(s.skip(i as int)[0] == s[i as int]);
        }
    }
    if i < n && str_eq(v[i].as_str(), x.as_str()) {
        // already present
        proof {
            assert(s[i as int] == v@[i as int]@);
            assert(!str_lt(x@, s[i as int])) by {
                lemma_str_lt_asym(x@, x@);
            }
            assert(spec_insert_sorted(s.skip(i as int), x@) =~= s.skip(i as int));
            assert(v.deep_view() =~= s.take(i as int) + s.skip(i as int));
        }
        return ;
    }
    proof {
        if i < n {
            assert(s[i as int] == v@[i as int]@);
            assert(!str_lt(s[i as int], x@));
            assert(x@ != s[i as int]);
            assert(str_lt(x@, s[i as int])) by {
                lemma_str_lt_total(x@, s[i as int]);
            }
            assert(spec_insert_sorted(s.skip(i as int), x@) =~= seq![x@] + s.skip(i as int));
        }
    }
    v.insert(i, x);
    proof {
        assert(v.deep_view() =~= s.take(i as int) + spec_insert_sorted(s.skip(i as int), x@));
    }
}

/// Two distinct strings are ordered one way or the other.
pub proof fn lemma_str_lt_total(a: Seq<char>, b: Seq<char>)
    ensures
        a == b || str_lt(a, b) || str_lt(b, a),
    decreases a.len(),
{
    if a.len() == 0 && b.len() == 0 {
        assert(a =~= b);
    } else if a.len() > 0 && b.len() > 0 && a[0] == b[0] {
        lemma_str_lt_total(a.skip(1), b.skip(1));
        if a.skip(1) == b.skip(1) {
            assert(a.skip(1).len() == b.skip(1).len());
            assert(a.len() == b.len());
            assert forall|j: int| 0 <= j < a.len() implies a[j] == b[j] by {
                if j > 0 {
                    assert(a.skip(1)[j - 1] == a[j]);
                    assert(b.skip(1)[j - 1] == b[j]);
                }
            }
            assert(a =~= b);
        }
    }
}

/// The decimal digits of `n`, most significant first.
pub open spec fn spec_u32_digits(n: nat) -> Seq<char>
    decreases n,
{
    let last = ((n % 10) + 48) as char;
    if n < 10 {
        seq![last]
    } else {
        spec_u32_digits(n / 10) + seq![last]
    }
}

/// Rendering a number and reading the digits back give the number again.
pub proof fn lemma_u32_digits_val(n: nat)
    ensures
        spec_u32_digits(n).len() >= 1,
        digit_run(spec_u32_digits(n), 0, spec_u32_digits(n).len() as int),
        digits_val(spec_u32_digits(n)) == n,
    decreases n,
{
    let ds = spec_u32_digits(n);
    let last = ((n % 10) + 48) as char;
    assert(is_digit(last)) by {
        assert(0 <= n % 10 < 10);
    }
    assert(digit_val(last) == n % 10) by {
        assert((((n % 10) + 48) as char) as int == (n % 10) + 48);
    }
    if n < 10 {
        assert(ds.take(0) =~= Seq::<char>::empty());
        assert(digits_val(Seq::<char>::empty()) == 0);
        assert(ds[0] == last);
        assert(digits_val(ds) == digits_val(ds.take(0)) * 10 + digit_val(ds[0]));
        assert(digits_val(ds) == n);
    } else {
        lemma_u32_digits_val(n / 10);
        let head = spec_u32_digits(n / 10);
        assert(ds.take(ds.len() - 1) =~= head);
        assert(ds[ds.len() - 1] == last);
        assert(digits_val(ds) == digits_val(ds.take(ds.len() - 1)) * 10 + digit_val(
            ds[ds.len() - 1],
        ));
        assert(digits_val(head) * 10 + n % 10 == n) by {
            assert(digits_val(head) == n / 10);
        }
        assert(digits_val(ds) == n);
        assert forall|j: int| 0 <= j < ds.len() implies is_digit(#[trigger] ds[j]) by {
            if j < head.len() {
                assert(ds[j] == head[j]);
            }
        }
    }
}

} // verus!
