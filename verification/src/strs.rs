//! Character-level string operations with their meaning stated over
//! `Seq<char>`: prefixes, searching, splitting, replacing and decimal
//! numbers.
use vstd::prelude::*;

verus! {

// ---------------------------------------------------------------------------
// Specifications
// ---------------------------------------------------------------------------

/// `p` occurs in `s` starting at character `i`.
pub open spec fn occurs_at(s: Seq<char>, p: Seq<char>, i: int) -> bool {
    0 <= i && i + p.len() <= s.len() && s.subrange(i, i + p.len()) == p
}

/// `s` starts with `p`.
pub open spec fn has_prefix(s: Seq<char>, p: Seq<char>) -> bool {
    occurs_at(s, p, 0)
}

/// `s` ends with `p`.
pub open spec fn has_suffix(s: Seq<char>, p: Seq<char>) -> bool {
    p.len() <= s.len() && occurs_at(s, p, s.len() - p.len())
}

/// `i` is the first position at or after `start` where `p` occurs in `s`.
pub open spec fn first_occurrence_from(s: Seq<char>, p: Seq<char>, start: int, i: int) -> bool {
    &&& start <= i
    &&& occurs_at(s, p, i)
    &&& forall|j: int| start <= j < i ==> !occurs_at(s, p, j)
}

/// `p` occurs somewhere in `s`.
pub open spec fn contains(s: Seq<char>, p: Seq<char>) -> bool {
    exists|i: int| occurs_at(s, p, i)
}

/// `s` with every occurrence of `p` replaced by `r`, scanning from the left
/// and never letting two occurrences overlap (as `str::replace` does).
pub open spec fn replace_spec(s: Seq<char>, p: Seq<char>, r: Seq<char>) -> Seq<char>
    recommends
        p.len() > 0,
    decreases s.len(),
{
    if s.len() == 0 || p.len() == 0 {
        s
    } else if occurs_at(s, p, 0) {
        r + replace_spec(s.skip(p.len() as int), p, r)
    } else {
        seq![s[0]] + replace_spec(s.drop_first(), p, r)
    }
}

/// The value of a sequence of decimal digits.
pub open spec fn decimal_value(d: Seq<char>) -> nat
    decreases d.len(),
{
    if d.len() == 0 {
        0
    } else {
        decimal_value(d.drop_last()) * 10 + digit_value(d.last())
    }
}

/// The value of a decimal digit character.
pub open spec fn digit_value(c: char) -> nat {
    ((c as u32) - ('0' as u32)) as nat
}

/// The character of a decimal digit.
pub open spec fn digit_char(d: nat) -> char {
    if d == 0 {
        '0'
    } else if d == 1 {
        '1'
    } else if d == 2 {
        '2'
    } else if d == 3 {
        '3'
    } else if d == 4 {
        '4'
    } else if d == 5 {
        '5'
    } else if d == 6 {
        '6'
    } else if d == 7 {
        '7'
    } else if d == 8 {
        '8'
    } else {
        '9'
    }
}

pub open spec fn is_digit(c: char) -> bool {
    '0' <= c <= '9'
}

pub open spec fn all_digits(d: Seq<char>) -> bool {
    forall|i: int| 0 <= i < d.len() ==> is_digit(#[trigger] d[i])
}

/// The digits of an unsigned number: an optional leading `+` is dropped.
pub open spec fn unsigned_digits(s: Seq<char>) -> Seq<char> {
    if s.len() > 0 && s[0] == '+' {
        s.drop_first()
    } else {
        s
    }
}

/// What `str::parse::<u8>` returns: the value of a non-empty run of decimal
/// digits, optionally preceded by `+`, when it fits in a `u8`.
pub open spec fn parse_u8_spec(s: Seq<char>) -> Option<u8> {
    let d = unsigned_digits(s);
    if d.len() > 0 && all_digits(d) && decimal_value(d) <= 255 {
        Some(decimal_value(d) as u8)
    } else {
        None
    }
}

/// The decimal digits of `n`, most significant first, without leading
/// zeros (`"0"` for zero).
pub open spec fn decimal_digits(n: nat) -> Seq<char>
    decreases n,
{
    if n < 10 {
        seq![digit_char(n)]
    } else {
        decimal_digits(n / 10).push(digit_char(n % 10))
    }
}

// ---------------------------------------------------------------------------
// Conversions between strings and characters
// ---------------------------------------------------------------------------

/// Wraps `String::push`: the character is appended.
#[verifier::external_body]
pub fn push_char(s: &mut String, c: char)
    ensures
        final(s)@ == old(s)@.push(c),
{
    s.push(c);
}

/// The characters of `s`.
pub fn chars_of(s: &str) -> (v: Vec<char>)
    ensures
        v@ == s@,
{
    let n = s.unicode_len();
    let mut v: Vec<char> = Vec::new();
    let mut i: usize = 0;
    while i < n
        invariant
            i <= n,
            n == s@.len(),
            v@ == s@.take(i as int),
        decreases n - i,
    {
        let c = s.get_char(i);
        v.push(c);
        assert(s@.take(i + 1) =~= s@.take(i as int).push(c));
        i = i + 1;
    }
    assert(s@.take(n as int) =~= s@);
    v
}

/// The string made of `cs[from..to]`.
pub fn string_of_range(cs: &[char], from: usize, to: usize) -> (r: String)
    requires
        from <= to <= cs@.len(),
    ensures
        r@ == cs@.subrange(from as int, to as int),
{
    let mut r = String::new();
    let mut i = from;
    while i < to
        invariant
            from <= i <= to <= cs@.len(),
            r@ == cs@.subrange(from as int, i as int),
        decreases to - i,
    {
        push_char(&mut r, cs[i]);
        assert(cs@.subrange(from as int, i + 1) =~= cs@.subrange(from as int, i as int).push(
            cs@[i as int],
        ));
        i = i + 1;
    }
    r
}

/// The string made of the characters `cs`.
pub fn string_of(cs: &[char]) -> (r: String)
    ensures
        r@ == cs@,
{
    let r = string_of_range(cs, 0, cs.len());
    assert(cs@.subrange(0, cs@.len() as int) =~= cs@);
    r
}

/// Appends the characters of `t` to `s`.
pub fn push_str(s: &mut String, t: &str)
    ensures
        final(s)@ == old(s)@ + t@,
{
    s.append(t);
}

/// A copy of a string slice.
pub fn owned(s: &str) -> (r: String)
    ensures
        r@ == s@,
{
    s.to_owned()
}

// ---------------------------------------------------------------------------
// Searching
// ---------------------------------------------------------------------------

/// Whether `p` occurs in `s` at character `i`.
pub fn matches_at(s: &[char], p: &[char], i: usize) -> (r: bool)
    ensures
        r == occurs_at(s@, p@, i as int),
{
    if i > s.len() || p.len() > s.len() - i {
        return false;
    }
    let n = s.len();
    let mut k: usize = 0;
    while k < p.len()
        invariant
            n == s@.len(),
            i + p@.len() <= s@.len(),
            k <= p@.len(),
            forall|j: int| 0 <= j < k ==> s@[i + j] == p@[j],
        decreases p@.len() - k,
    {
        if s[i + k] != p[k] {
            assert(s@.subrange(i as int, i + p@.len())[k as int] != p@[k as int]);
            return false;
        }
        k = k + 1;
    }
    assert(s@.subrange(i as int, i + p@.len()) =~= p@);
    true
}

/// The first position at or after `start` where `p` occurs in `s`.
pub fn find_from(s: &[char], p: &[char], start: usize) -> (r: Option<usize>)
    ensures
        r matches Some(i) ==> first_occurrence_from(s@, p@, start as int, i as int),
        r is None ==> forall|j: int| start <= j ==> !occurs_at(s@, p@, j),
{
    let n = s.len();
    if start > n {
        return None;
    }
    let mut i = start;
    while i < n
        invariant
            n == s@.len(),
            start <= i <= n,
            forall|j: int| start <= j < i ==> !occurs_at(s@, p@, j),
        decreases n - i,
    {
        if matches_at(s, p, i) {
            return Some(i);
        }
        i = i + 1;
    }
    if matches_at(s, p, n) {
        return Some(n);
    }
    assert forall|j: int| start <= j implies !occurs_at(s@, p@, j) by {
        if j > n {
        }
    }
    None
}

/// `s` without every leading repetition of `p` (as
/// `str::trim_start_matches` with a text pattern).
pub open spec fn trim_start_spec(s: Seq<char>, p: Seq<char>) -> Seq<char>
    decreases s.len(),
{
    if p.len() > 0 && has_prefix(s, p) {
        trim_start_spec(s.skip(p.len() as int), p)
    } else {
        s
    }
}

/// `s` without every leading repetition of `p`.
pub fn trim_start_matches(s: &str, p: &str) -> (r: String)
    ensures
        r@ == trim_start_spec(s@, p@),
{
    let sc = chars_of(s);
    let pc = chars_of(p);
    let mut i: usize = 0;
    if pc.len() == 0 {
        return string_of(sc.as_slice());
    }
    assert(sc@.skip(0) =~= sc@);
    while matches_at(sc.as_slice(), pc.as_slice(), i)
        invariant
            i <= sc@.len(),
            pc@.len() > 0,
            trim_start_spec(sc@.skip(i as int), pc@) == trim_start_spec(s@, p@),
            sc@ == s@,
            pc@ == p@,
        decreases sc@.len() - i,
    {
        let ghost t = sc@.skip(i as int);
        assert(occurs_at(sc@, pc@, i as int));
        assert(i + pc@.len() <= sc@.len());
        assert(sc@.len() == sc.len() && pc@.len() == pc.len());
        assert(t.subrange(0, pc@.len() as int) =~= sc@.subrange(i as int, i + pc@.len()));
        assert(t.skip(pc@.len() as int) =~= sc@.skip(i + pc@.len()));
        i = i + pc.len();
    }
    proof {
        let t = sc@.skip(i as int);
        if has_prefix(t, pc@) {
            assert(t.subrange(0, pc@.len() as int) =~= sc@.subrange(i as int, i + pc@.len()));
        }
    }
    let r = string_of_range(sc.as_slice(), i, sc.len());
    assert(sc@.subrange(i as int, sc@.len() as int) =~= sc@.skip(i as int));
    r
}

/// Whether two texts are equal.
pub fn matches_text(a: &str, b: &str) -> (r: bool)
    ensures
        r == (a@ == b@),
{
    let ac = chars_of(a);
    let bc = chars_of(b);
    if ac.len() != bc.len() {
        return false;
    }
    let r = matches_at(ac.as_slice(), bc.as_slice(), 0);
    assert(r ==> ac@.subrange(0, bc@.len() as int) =~= ac@);
    assert(a@ == b@ ==> ac@.subrange(0, bc@.len() as int) =~= bc@);
    r
}

/// Whether `s` starts with `p`.
pub fn starts_with(s: &str, p: &str) -> (r: bool)
    ensures
        r == has_prefix(s@, p@),
{
    let sc = chars_of(s);
    let pc = chars_of(p);
    matches_at(sc.as_slice(), pc.as_slice(), 0)
}

/// Whether `s` ends with `p`.
pub fn ends_with(s: &str, p: &str) -> (r: bool)
    ensures
        r == has_suffix(s@, p@),
{
    let sc = chars_of(s);
    let pc = chars_of(p);
    if pc.len() > sc.len() {
        false
    } else {
        matches_at(sc.as_slice(), pc.as_slice(), sc.len() - pc.len())
    }
}

/// `s` without the prefix `p`, or `None` where `s` does not start with `p`.
pub fn strip_prefix(s: &str, p: &str) -> (r: Option<String>)
    ensures
        has_prefix(s@, p@) ==> (r matches Some(t) && t@ == s@.skip(p@.len() as int)),
        !has_prefix(s@, p@) ==> r is None,
{
    let sc = chars_of(s);
    let pc = chars_of(p);
    if matches_at(sc.as_slice(), pc.as_slice(), 0) {
        let t = string_of_range(sc.as_slice(), pc.len(), sc.len());
        assert(sc@.subrange(pc@.len() as int, sc@.len() as int) =~= s@.skip(p@.len() as int));
        Some(t)
    } else {
        None
    }
}

/// The text before and after the first occurrence of `p` in `s`, or `None`
/// where `p` does not occur (as `str::split_once`).
pub fn split_once(s: &str, p: &str) -> (r: Option<(String, String)>)
    ensures
        r matches Some((a, b)) ==> exists|i: int|
            first_occurrence_from(s@, p@, 0, i) && a@ == s@.take(i) && b@ == s@.skip(i + p@.len()),
        r is None ==> !contains(s@, p@),
{
    let sc = chars_of(s);
    let pc = chars_of(p);
    match find_from(sc.as_slice(), pc.as_slice(), 0) {
        Some(i) => {
            let n = sc.len();
            assert(i + pc@.len() <= n);
            let a = string_of_range(sc.as_slice(), 0, i);
            let b = string_of_range(sc.as_slice(), i + pc.len(), sc.len());
            assert(sc@.subrange(0, i as int) =~= s@.take(i as int));
            assert(sc@.subrange(i + pc@.len(), sc@.len() as int) =~= s@.skip(i + p@.len()));
            Some((a, b))
        },
        None => {
            assert(!contains(s@, p@)) by {
                if contains(s@, p@) {
                    let j = choose|j: int| occurs_at(s@, p@, j);
                    assert(0 <= j);
                }
            }
            None
        },
    }
}

proof fn lemma_replace_skip(s: Seq<char>, p: Seq<char>, r: Seq<char>, i: int, k: int)
    requires
        p.len() > 0,
        0 <= i <= s.len(),
        forall|j: int| i <= j < k ==> !occurs_at(s, p, j),
        i <= k <= s.len(),
    ensures
        replace_spec(s.skip(i), p, r) == s.subrange(i, k) + replace_spec(s.skip(k), p, r),
    decreases k - i,
{
    if i == k {
        assert(s.subrange(i, k) =~= Seq::<char>::empty());
        assert(s.subrange(i, k) + replace_spec(s.skip(k), p, r) =~= replace_spec(s.skip(k), p, r));
    } else {
        let t = s.skip(i);
        assert(t.len() > 0);
        assert(!occurs_at(t, p, 0)) by {
            if occurs_at(t, p, 0) {
                assert(t.subrange(0, p.len() as int) =~= s.subrange(i, i + p.len()));
                assert(occurs_at(s, p, i));
            }
        }
        assert(t.drop_first() =~= s.skip(i + 1));
        lemma_replace_skip(s, p, r, i + 1, k);
        assert(s.subrange(i, k) =~= seq![s[i]] + s.subrange(i + 1, k));
        assert(t[0] == s[i]);
        assert(replace_spec(t, p, r) == seq![t[0]] + replace_spec(t.drop_first(), p, r));
        assert(seq![s[i]] + (s.subrange(i + 1, k) + replace_spec(s.skip(k), p, r)) =~= (seq![s[i]]
            + s.subrange(i + 1, k)) + replace_spec(s.skip(k), p, r));
    }
}

/// `s` with every occurrence of `p` replaced by `r` (as `str::replace`).
pub fn replace(s: &str, p: &str, r: &str) -> (out: String)
    requires
        p@.len() > 0,
    ensures
        out@ == replace_spec(s@, p@, r@),
{
    let sc = chars_of(s);
    let pc = chars_of(p);
    let mut out = String::new();
    let mut i: usize = 0;
    assert(s@.skip(0) =~= s@);
    while i < sc.len()
        invariant
            pc@ == p@,
            sc@ == s@,
            p@.len() > 0,
            i <= sc@.len(),
            out@ + replace_spec(s@.skip(i as int), p@, r@) == replace_spec(s@, p@, r@),
        decreases sc@.len() - i,
    {
        let next = find_from(sc.as_slice(), pc.as_slice(), i);
        match next {
            Some(k) => {
                let ghost out0 = out@;
                proof {
                    lemma_replace_skip(s@, p@, r@, i as int, k as int);
                    let t = s@.skip(k as int);
                    assert(t.subrange(0, p@.len() as int) =~= s@.subrange(k as int, k + p@.len()));
                    assert(t.skip(p@.len() as int) =~= s@.skip(k + p@.len()));
                    assert(occurs_at(t, p@, 0));
                    assert(replace_spec(t, p@, r@) == r@ + replace_spec(
                        s@.skip(k + p@.len()),
                        p@,
                        r@,
                    ));
                }
                let before = string_of_range(sc.as_slice(), i, k);
                push_str(&mut out, before.as_str());
                push_str(&mut out, r);
                proof {
                    let tail = replace_spec(s@.skip(k + p@.len()), p@, r@);
                    assert(out@ == out0 + s@.subrange(i as int, k as int) + r@);
                    assert(out@ + tail =~= out0 + (s@.subrange(i as int, k as int) + (r@ + tail)));
                }
                i = k + pc.len();
            },
            None => {
                let ghost out0 = out@;
                proof {
                    lemma_replace_skip(s@, p@, r@, i as int, s@.len() as int);
                    assert(s@.skip(s@.len() as int) =~= Seq::<char>::empty());
                    assert(replace_spec(Seq::<char>::empty(), p@, r@) =~= Seq::<char>::empty());
                }
                let rest = string_of_range(sc.as_slice(), i, sc.len());
                push_str(&mut out, rest.as_str());
                proof {
                    assert(out@ + replace_spec(Seq::<char>::empty(), p@, r@) =~= out0 + (s@.subrange(
                        i as int,
                        s@.len() as int,
                    ) + replace_spec(s@.skip(s@.len() as int), p@, r@)));
                }
                i = sc.len();
            },
        }
    }
    assert(s@.skip(i as int) =~= Seq::<char>::empty());
    out
}

// ---------------------------------------------------------------------------
// Decimal numbers
// ---------------------------------------------------------------------------

proof fn lemma_digit_char(d: nat)
    requires
        d < 10,
    ensures
        is_digit(digit_char(d)),
        digit_value(digit_char(d)) == d,
{
}

/// The character of the digit `d`.
fn digit_char_exec(d: usize) -> (c: char)
    requires
        d < 10,
    ensures
        c == digit_char(d as nat),
{
    if d == 0 {
        '0'
    } else if d == 1 {
        '1'
    } else if d == 2 {
        '2'
    } else if d == 3 {
        '3'
    } else if d == 4 {
        '4'
    } else if d == 5 {
        '5'
    } else if d == 6 {
        '6'
    } else if d == 7 {
        '7'
    } else if d == 8 {
        '8'
    } else {
        '9'
    }
}

pub proof fn lemma_decimal_digits_ok(n: nat)
    ensures
        all_digits(decimal_digits(n)),
        decimal_digits(n).len() > 0,
        decimal_value(decimal_digits(n)) == n,
    decreases n,
{
    lemma_digit_char(n % 10);
    if n < 10 {
        let d = decimal_digits(n);
        assert(d.drop_last() =~= Seq::<char>::empty());
        assert(decimal_value(d.drop_last()) == 0);
        assert(d.last() == digit_char(n));
        assert(decimal_value(d) == digit_value(digit_char(n)));
    } else {
        lemma_decimal_digits_ok(n / 10);
        let d = decimal_digits(n);
        assert(d.drop_last() =~= decimal_digits(n / 10));
        assert forall|i: int| 0 <= i < d.len() implies is_digit(#[trigger] d[i]) by {
            if i < d.len() - 1 {
                assert(d[i] == decimal_digits(n / 10)[i]);
            }
        }
    }
}

/// The decimal representation of `n`.
pub fn decimal(n: usize) -> (r: String)
    ensures
        r@ == decimal_digits(n as nat),
    decreases n,
{
    if n < 10 {
        let mut r = String::new();
        let c = digit_char_exec(n);
        push_char(&mut r, c);
        assert(r@ =~= decimal_digits(n as nat));
        r
    } else {
        let mut r = decimal(n / 10);
        let c = digit_char_exec(n % 10);
        push_char(&mut r, c);
        r
    }
}

/// Parses an unsigned 8-bit decimal number as `str::parse::<u8>` does.
pub fn parse_u8(s: &str) -> (r: Option<u8>)
    ensures
        r == parse_u8_spec(s@),
{
    let cs = chars_of(s);
    let mut start: usize = 0;
    if cs.len() > 0 && cs[0] == '+' {
        start = 1;
    }
    let ghost d = unsigned_digits(s@);
    assert(d =~= cs@.skip(start as int));
    if start >= cs.len() {
        return None;
    }
    let mut value: u32 = 0;
    let mut i = start;
    while i < cs.len()
        invariant
            start <= i <= cs@.len(),
            cs@ == s@,
            d == cs@.skip(start as int),
            d == unsigned_digits(s@),
            d.len() > 0,
            value <= 255,
            all_digits(d.take(i - start)),
            value == decimal_value(d.take(i - start)),
        decreases cs@.len() - i,
    {
        let c = cs[i];
        assert(d[i - start] == c);
        if !('0' <= c && c <= '9') {
            assert(!is_digit(d[i - start]));
            assert(!all_digits(d));
            return None;
        }
        let digit = (c as u32) - ('0' as u32);
        let ghost next = d.take(i + 1 - start);
        assert(next.drop_last() =~= d.take(i - start));
        assert(next.last() == c);
        assert(all_digits(next)) by {
            assert forall|j: int| 0 <= j < next.len() implies is_digit(#[trigger] next[j]) by {
                if j < next.len() - 1 {
                    assert(next[j] == d.take(i - start)[j]);
                }
            }
        }
        assert(decimal_value(next) == value * 10 + digit);
        if value * 10 + digit > 255 {
            proof {
                lemma_decimal_prefix_grows(d, i + 1 - start);
            }
            return None;
        }
        value = value * 10 + digit;
        i = i + 1;
    }
    assert(d.take(i - start) =~= d);
    Some(value as u8)
}

/// Extending a run of digits never makes its value smaller.
proof fn lemma_decimal_prefix_grows(d: Seq<char>, k: int)
    requires
        0 <= k <= d.len(),
        all_digits(d.take(k)),
    ensures
        all_digits(d) ==> decimal_value(d.take(k)) <= decimal_value(d),
    decreases d.len() - k,
{
    if k < d.len() && all_digits(d) {
        assert(d.take(k + 1).drop_last() =~= d.take(k));
        assert(all_digits(d.take(k + 1)));
        lemma_decimal_prefix_grows(d, k + 1);
    } else if k == d.len() {
        assert(d.take(k) =~= d);
    }
}

} // verus!
