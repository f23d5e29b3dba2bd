//! Parsers for the size, speed, percent and time tokens that the downloader
//! prints. Numbers are unsigned decimals (`12`, `12.5`, `.5`, `12.`) of at
//! most 19 digits; results are whole units, truncated, and saturate at
//! `u64::MAX`.
use vstd::prelude::*;
use crate::text::{
    chars_of, copy_range, ends_with, ends_with_exec, is_ws, split, split_exec, split_from,
    strip_suffix, trim, trim_end, trim_start, trimmed, views,
};

verus! {

pub const MAX_DIGITS: usize = 19;

pub open spec fn is_digit(c: char) -> bool {
    '0' <= c && c <= '9'
}

pub open spec fn digit_value(c: char) -> nat {
    (c as u32 - '0' as u32) as nat
}

pub open spec fn all_digits(s: Seq<char>) -> bool {
    forall|i: int| 0 <= i < s.len() ==> is_digit(#[trigger] s[i])
}

/// The number that a run of decimal digits denotes.
pub open spec fn digits_value(s: Seq<char>) -> nat
    decreases s.len(),
{
    if s.len() == 0 {
        0
    } else {
        digits_value(s.drop_last()) * 10 + digit_value(s.last())
    }
}

pub open spec fn pow10(n: nat) -> nat
    decreases n,
{
    if n == 0 {
        1
    } else {
        10 * pow10((n - 1) as nat)
    }
}

/// `s` has its decimal point at `k`, digits on both sides, and between 1 and
/// `MAX_DIGITS` digits in all.
pub open spec fn is_point_at(s: Seq<char>, k: int) -> bool {
    &&& 0 <= k < s.len()
    &&& s[k] == '.'
    &&& all_digits(s.take(k))
    &&& all_digits(s.skip(k + 1))
    &&& 2 <= s.len() <= MAX_DIGITS + 1
}

/// An unsigned decimal as `(mantissa, scale)`: its value is
/// `mantissa / 10^scale`.
pub open spec fn decimal_of(s: Seq<char>) -> Option<(nat, nat)> {
    if all_digits(s) && 1 <= s.len() <= MAX_DIGITS {
        Some((digits_value(s), 0))
    } else if exists|k: int| is_point_at(s, k) {
        let k = choose|k: int| is_point_at(s, k);
        Some((digits_value(s.take(k) + s.skip(k + 1)), (s.len() - k - 1) as nat))
    } else {
        None
    }
}

/// `x`, saturated to the range of `u64`.
pub open spec fn capped(x: nat) -> u64 {
    if x > u64::MAX {
        u64::MAX
    } else {
        x as u64
    }
}

/// The decimal `s` times `unit`, truncated to a whole number.
pub open spec fn scaled_of(s: Seq<char>, unit: nat) -> Option<nat> {
    match decimal_of(s) {
        Some((m, f)) => Some(m * unit / pow10(f)),
        None => None,
    }
}

proof fn lemma_pow10_monotone(a: nat, b: nat)
    requires
        a <= b,
    ensures
        1 <= pow10(a) <= pow10(b),
    decreases b,
{
    if b > 0 {
        if a == b {
            lemma_pow10_monotone(0, (b - 1) as nat);
        } else {
            lemma_pow10_monotone(a, (b - 1) as nat);
        }
    }
}

proof fn lemma_pow10_max()
    ensures
        pow10(MAX_DIGITS as nat) == 10000000000000000000,
{
    reveal_with_fuel(pow10, 20);
}

proof fn lemma_digits_value_bound(s: Seq<char>)
    requires
        all_digits(s),
    ensures
        digits_value(s) < pow10(s.len()),
    decreases s.len(),
{
    if s.len() > 0 {
        let t = s.drop_last();
        assert(all_digits(t)) by {
            assert forall|i: int| 0 <= i < t.len() implies is_digit(#[trigger] t[i]) by {
                assert(t[i] == s[i]);
            }
        }
        lemma_digits_value_bound(t);
        assert(is_digit(s[s.len() - 1]));
        let a = digits_value(t);
        let p = pow10(t.len());
        let d = digit_value(s.last());
        assert(d <= 9);
        assert(a * 10 + d < p * 10) by (nonlinear_arith)
            requires
                a < p,
                d <= 9,
        ;
    }
}

/// The value of a run of at most `MAX_DIGITS` digits.
fn digits_value_exec(ds: &Vec<char>) -> (r: u64)
    requires
        all_digits(ds@),
        ds@.len() <= MAX_DIGITS,
    ensures
        r == digits_value(ds@),
{
    let mut m: u64 = 0;
    let mut i: usize = 0;
    while i < ds.len()
        invariant
            all_digits(ds@),
            ds@.len() <= MAX_DIGITS,
            i <= ds@.len(),
            m == digits_value(ds@.take(i as int)),
        decreases ds@.len() - i,
    {
        let ghost t = ds@.take(i + 1);
        assert(t.drop_last() == ds@.take(i as int));
        assert(t.last() == ds@[i as int]);
        assert(all_digits(t));
        proof {
            lemma_digits_value_bound(t);
            lemma_pow10_monotone(t.len(), MAX_DIGITS as nat);
            lemma_pow10_max();
        }
        assert(is_digit(ds@[i as int]));
        let d = (ds[i] as u32 - '0' as u32) as u64;
        m = m * 10 + d;
        i += 1;
    }
    assert(ds@.take(ds@.len() as int) == ds@);
    m
}

/// `10^n` for `n <= MAX_DIGITS`.
fn pow10_exec(n: usize) -> (r: u64)
    requires
        n <= MAX_DIGITS,
    ensures
        r == pow10(n as nat),
{
    let mut r: u64 = 1;
    let mut i: usize = 0;
    while i < n
        invariant
            i <= n <= MAX_DIGITS,
            r == pow10(i as nat),
        decreases n - i,
    {
        proof {
            lemma_pow10_monotone((i + 1) as nat, MAX_DIGITS as nat);
            lemma_pow10_max();
        }
        r = r * 10;
        i += 1;
    }
    r
}

/// Parses an unsigned decimal into `(mantissa, scale)`.
pub fn parse_decimal(s: &Vec<char>) -> (r: Option<(u64, usize)>)
    ensures
        match decimal_of(s@) {
            Some((m, f)) => r == Some((m as u64, f as usize)) && m < pow10(MAX_DIGITS as nat) && f
                <= MAX_DIGITS,
            None => r is None,
        },
{
    let n = s.len();
    let mut digits: Vec<char> = Vec::new();
    let mut point: Option<usize> = None;
    let mut i: usize = 0;
    while i < n
        invariant
            n == s@.len(),
            i <= n,
            point matches Some(k) ==> k < i && s@[k as int] == '.' && digits@ == s@.take(k as int)
                + s@.skip(k + 1).take(i - k - 1) && all_digits(s@.take(k as int))
                && all_digits(s@.skip(k + 1).take(i - k - 1)),
            point is None ==> digits@ == s@.take(i as int) && all_digits(s@.take(i as int)),
        decreases n - i,
    {
        let c = s[i];
        if '0' <= c && c <= '9' {
            digits.push(c);
            proof {
                match point {
                    Some(k) => {
                        let ghost tail = s@.skip(k + 1);
                        assert(tail.take(i + 1 - k - 1) == tail.take(i - k - 1).push(c));
                    }
                    None => {
                        assert(s@.take(i + 1) == s@.take(i as int).push(c));
                    }
                }
            }
        } else if c == '.' && point.is_none() {
            point = Some(i);
            assert(s@.skip(i + 1).take(0) =~= Seq::<char>::empty());
            assert(digits@ =~= s@.take(i as int) + s@.skip(i + 1).take(0));
        } else {
            proof {
                match point {
                    Some(k) => {
                        if c == '.' {
                            assert(!is_digit(s@.skip(k + 1)[i - k - 1]));
                            assert forall|j: int| #[trigger] is_point_at(s@, j) implies false by {
                                if j < k {
                                    assert(!is_digit(s@.take(k as int)[j]));
                                } else if j > k {
                                    assert(!is_digit(s@.take(j)[k as int]));
                                } else {
                                    assert(!is_digit(s@.skip(k + 1)[i - k - 1]));
                                }
                            }
                        }
                    }
                    None => {}
                }
                assert(!all_digits(s@)) by {
                    assert(!is_digit(s@[i as int]));
                }
                assert forall|j: int| #[trigger] is_point_at(s@, j) implies false by {
                    if j < i {
                        if s@[i as int] != '.' {
                            assert(!is_digit(s@.skip(j + 1)[i - j - 1]));
                        }
                    } else if j > i {
                        assert(!is_digit(s@.take(j)[i as int]));
                    }
                }
            }
            return None;
        }
        i += 1;
    }
    assert(s@.take(n as int) == s@);
    match point {
        None => {
            if n == 0 || n > MAX_DIGITS {
                return None;
            }
            let m = digits_value_exec(&digits);
            proof {
                lemma_digits_value_bound(s@);
                lemma_pow10_monotone(n as nat, MAX_DIGITS as nat);
            }
            Some((m, 0))
        },
        Some(k) => {
            assert(s@.skip(k + 1).take(n - k - 1) == s@.skip(k + 1));
            assert(!all_digits(s@)) by {
                assert(!is_digit(s@[k as int]));
            }
            if n < 2 || n > MAX_DIGITS + 1 {
                assert forall|j: int| #[trigger] is_point_at(s@, j) implies false by {}
                return None;
            }
            assert(is_point_at(s@, k as int));
            assert forall|j: int| #[trigger] is_point_at(s@, j) implies j == k by {
                if j < k {
                    assert(!is_digit(s@.take(k as int)[j]));
                } else if j > k {
                    assert(!is_digit(s@.take(j)[k as int]));
                }
            }
            let m = digits_value_exec(&digits);
            proof {
                lemma_digits_value_bound(digits@);
                lemma_pow10_monotone(digits@.len(), MAX_DIGITS as nat);
            }
            Some((m, n - k - 1))
        },
    }
}

/// The largest unit a decimal is ever multiplied by (a gibibyte).
pub const MAX_UNIT: u64 = 1073741824;

/// `scaled_of(s, unit)`, saturated to `u64`.
pub open spec fn scaled_capped(s: Seq<char>, unit: nat) -> Option<u64> {
    match scaled_of(s, unit) {
        Some(x) => Some(capped(x)),
        None => None,
    }
}

/// The decimal `v` times `unit`, truncated and saturated.
pub fn parse_scaled(v: &Vec<char>, unit: u64) -> (r: Option<u64>)
    requires
        1 <= unit <= MAX_UNIT,
    ensures
        r == scaled_capped(v@, unit as nat),
{
    match parse_decimal(v) {
        None => None,
        Some((m, f)) => {
            let p = pow10_exec(f);
            proof {
                lemma_pow10_max();
                lemma_pow10_monotone(f as nat, MAX_DIGITS as nat);
            }
            assert((m as nat) * (unit as nat) <= 10000000000000000000 * 1073741824)
                by (nonlinear_arith)
                requires
                    m < 10000000000000000000nat,
                    unit <= 1073741824nat,
            ;
            let x: u128 = (m as u128) * (unit as u128) / (p as u128);
            if x > u64::MAX as u128 {
                Some(u64::MAX)
            } else {
                Some(x as u64)
            }
        },
    }
}

/// The unit suffix that ends `t` and its multiplier, binary units first.
pub open spec fn size_unit(t: Seq<char>) -> Option<(Seq<char>, nat)> {
    if ends_with(t, "GiB"@) {
        Some(("GiB"@, 1073741824))
    } else if ends_with(t, "MiB"@) {
        Some(("MiB"@, 1048576))
    } else if ends_with(t, "KiB"@) {
        Some(("KiB"@, 1024))
    } else if ends_with(t, "GB"@) {
        Some(("GB"@, 1000000000))
    } else if ends_with(t, "MB"@) {
        Some(("MB"@, 1000000))
    } else if ends_with(t, "KB"@) {
        Some(("KB"@, 1000))
    } else if ends_with(t, "B"@) {
        Some(("B"@, 1))
    } else {
        None
    }
}

/// Bytes denoted by a size token such as `12.5MiB` (surrounding whitespace
/// ignored).
pub open spec fn size_of(s: Seq<char>) -> Option<u64> {
    let t = trim(s);
    match size_unit(t) {
        Some((u, mult)) => scaled_capped(trim(strip_suffix(t, u)), mult),
        None => None,
    }
}

/// Bytes per second denoted by a speed token such as `1.5MiB/s`.
pub open spec fn speed_of(s: Seq<char>) -> Option<u64> {
    size_of(strip_suffix(trim(s), "/s"@))
}

/// Hundredths of a percent denoted by a number such as `14.6`.
pub open spec fn percent_of(s: Seq<char>) -> Option<u64> {
    scaled_capped(s, 100)
}

/// Whole seconds of an `h:m:s`, `m:s` or `s` token; each field is a decimal.
pub open spec fn eta_of(s: Seq<char>) -> Option<u64> {
    let parts = split(trim(s), ':');
    if parts.len() == 1 {
        scaled_capped(parts[0], 1)
    } else if parts.len() == 2 {
        match (scaled_of(parts[0], 60), scaled_of(parts[1], 1)) {
            (Some(m), Some(x)) => Some(capped(m + x)),
            _ => None,
        }
    } else if parts.len() == 3 {
        match (scaled_of(parts[0], 3600), scaled_of(parts[1], 60), scaled_of(parts[2], 1)) {
            (Some(h), Some(m), Some(x)) => Some(capped(h + m + x)),
            _ => None,
        }
    } else {
        None
    }
}

fn try_unit(t: &Vec<char>, unit: &str, mult: u64) -> (r: Option<Option<u64>>)
    requires
        1 <= mult <= MAX_UNIT,
    ensures
        ends_with(t@, unit@) ==> r == Some(
            scaled_capped(trim(strip_suffix(t@, unit@)), mult as nat),
        ),
        !ends_with(t@, unit@) ==> r is None,
{
    let u = chars_of(unit);
    if ends_with_exec(t, &u) {
        let num = trimmed(&copy_range(t, 0, t.len() - u.len()));
        Some(parse_scaled(&num, mult))
    } else {
        None
    }
}

/// Parses a size token on its characters.
pub fn parse_size_chars(s: &Vec<char>) -> (r: Option<u64>)
    ensures
        r == size_of(s@),
{
    let t = trimmed(s);
    if let Some(r) = try_unit(&t, "GiB", 1073741824) {
        return r;
    }
    if let Some(r) = try_unit(&t, "MiB", 1048576) {
        return r;
    }
    if let Some(r) = try_unit(&t, "KiB", 1024) {
        return r;
    }
    if let Some(r) = try_unit(&t, "GB", 1000000000) {
        return r;
    }
    if let Some(r) = try_unit(&t, "MB", 1000000) {
        return r;
    }
    if let Some(r) = try_unit(&t, "KB", 1000) {
        return r;
    }
    if let Some(r) = try_unit(&t, "B", 1) {
        return r;
    }
    None
}

/// Parses a size token (`100MiB`, `1.5GB`, `1000B`) into bytes; `N/A`, `~`
/// and the empty token give `None`.
pub fn parse_size(s: &str) -> (r: Option<u64>)
    ensures
        r == size_of(s@),
{
    parse_size_chars(&chars_of(s))
}

/// Parses a speed token on its characters.
pub fn parse_speed_chars(s: &Vec<char>) -> (r: Option<u64>)
    ensures
        r == speed_of(s@),
{
    let t = trimmed(s);
    let per_second = chars_of("/s");
    if ends_with_exec(&t, &per_second) {
        parse_size_chars(&copy_range(&t, 0, t.len() - per_second.len()))
    } else {
        parse_size_chars(&t)
    }
}

/// Parses a speed token (`1MiB/s`) into bytes per second.
pub fn parse_speed(s: &str) -> (r: Option<u64>)
    ensures
        r == speed_of(s@),
{
    parse_speed_chars(&chars_of(s))
}

/// Parses a percent number (without its `%` sign) into hundredths of a
/// percent.
pub fn parse_percent_chars(s: &Vec<char>) -> (r: Option<u64>)
    ensures
        r == percent_of(s@),
{
    parse_scaled(s, 100)
}

/// Parses an ETA token on its characters.
pub fn parse_eta_chars(s: &Vec<char>) -> (r: Option<u64>)
    ensures
        r == eta_of(s@),
{
    let t = trimmed(s);
    let parts = split_exec(&t, ':');
    assert(views(parts@) == split(trim(s@), ':'));
    if parts.len() == 1 {
        assert(parts@[0]@ == views(parts@)[0]);
        parse_scaled(&parts[0], 1)
    } else if parts.len() == 2 {
        assert(parts@[0]@ == views(parts@)[0]);
        assert(parts@[1]@ == views(parts@)[1]);
        let m = parse_scaled(&parts[0], 60);
        let x = parse_scaled(&parts[1], 1);
        match (m, x) {
            (Some(m), Some(x)) => Some(m.saturating_add(x)),
            _ => None,
        }
    } else if parts.len() == 3 {
        assert(parts@[0]@ == views(parts@)[0]);
        assert(parts@[1]@ == views(parts@)[1]);
        assert(parts@[2]@ == views(parts@)[2]);
        let h = parse_scaled(&parts[0], 3600);
        let m = parse_scaled(&parts[1], 60);
        let x = parse_scaled(&parts[2], 1);
        match (h, m, x) {
            (Some(h), Some(m), Some(x)) => Some(h.saturating_add(m).saturating_add(x)),
            _ => None,
        }
    } else {
        None
    }
}

/// Parses an ETA token (`1:30`, `1:00:00`, `45`) into whole seconds; `N/A`,
/// `Unknown` and the empty token give `None`.
pub fn parse_eta(s: &str) -> (r: Option<u64>)
    ensures
        r == eta_of(s@),
{
    parse_eta_chars(&chars_of(s))
}

proof fn lemma_trim_unchanged(s: Seq<char>)
    requires
        s.len() > 0,
        !is_ws(s[0]),
        !is_ws(s.last()),
    ensures
        trim(s) == s,
{
    assert(trim_start(s) == s);
    assert(trim_end(s) == s);
}

proof fn lemma_whole_decimal(d: Seq<char>)
    requires
        all_digits(d),
        1 <= d.len() <= MAX_DIGITS,
    ensures
        trim(d) == d,
        forall|unit: nat| scaled_of(d, unit) == Some(digits_value(d) * unit),
{
    assert(is_digit(d[0]) && is_digit(d.last()));
    lemma_trim_unchanged(d);
    assert(decimal_of(d) == Some((digits_value(d), 0nat)));
    assert(pow10(0) == 1);
    assert forall|unit: nat| scaled_of(d, unit) == Some(digits_value(d) * unit) by {
        let x = digits_value(d) * unit;
        assert(x / 1 == x);
    }
}

proof fn lemma_unit_token(d: Seq<char>, u: Seq<char>, mult: nat)
    requires
        all_digits(d),
        1 <= d.len() <= MAX_DIGITS,
        u.len() > 0,
        !is_ws(u.last()),
        size_unit(d + u) == Some((u, mult)),
    ensures
        size_of(d + u) == Some(capped(digits_value(d) * mult)),
{
    let t = d + u;
    lemma_whole_decimal(d);
    assert(t[0] == d[0]);
    assert(t.last() == u.last());
    lemma_trim_unchanged(t);
    assert(ends_with(t, u));
    assert(strip_suffix(t, u) =~= d);
}

/// A whole number of a unit is that number times the unit's size in bytes
/// (saturated): `100MiB` is 100 * 2^20 bytes, `7KB` is 7000.
pub proof fn lemma_size_of_whole_units(d: Seq<char>)
    requires
        all_digits(d),
        1 <= d.len() <= MAX_DIGITS,
    ensures
        size_of(d + "GiB"@) == Some(capped(digits_value(d) * 1073741824)),
        size_of(d + "MiB"@) == Some(capped(digits_value(d) * 1048576)),
        size_of(d + "KiB"@) == Some(capped(digits_value(d) * 1024)),
        size_of(d + "GB"@) == Some(capped(digits_value(d) * 1000000000)),
        size_of(d + "MB"@) == Some(capped(digits_value(d) * 1000000)),
        size_of(d + "KB"@) == Some(capped(digits_value(d) * 1000)),
        size_of(d + "B"@) == Some(capped(digits_value(d))),
{
    reveal_strlit("GiB");
    reveal_strlit("MiB");
    reveal_strlit("KiB");
    reveal_strlit("GB");
    reveal_strlit("MB");
    reveal_strlit("KB");
    reveal_strlit("B");
    let n = d.len();
    assert(is_digit(d[n - 1]));
    if n >= 2 {
        assert(is_digit(d[n - 2]));
    }
    let gib = d + "GiB"@;
    assert(gib.subrange(gib.len() - 3, gib.len() as int) =~= "GiB"@);
    lemma_unit_token(d, "GiB"@, 1073741824);
    let mib = d + "MiB"@;
    assert(mib.subrange(mib.len() - 3, mib.len() as int) =~= "MiB"@);
    assert(mib.subrange(mib.len() - 3, mib.len() as int)[0] != "GiB"@[0]);
    lemma_unit_token(d, "MiB"@, 1048576);
    let kib = d + "KiB"@;
    assert(kib.subrange(kib.len() - 3, kib.len() as int) =~= "KiB"@);
    assert(kib.subrange(kib.len() - 3, kib.len() as int)[0] != "GiB"@[0]);
    assert(kib.subrange(kib.len() - 3, kib.len() as int)[0] != "MiB"@[0]);
    lemma_unit_token(d, "KiB"@, 1024);
    let gb = d + "GB"@;
    assert(gb.subrange(gb.len() - 2, gb.len() as int) =~= "GB"@);
    assert(gb.subrange(gb.len() - 3, gb.len() as int)[0] == d[n - 1]);
    lemma_unit_token(d, "GB"@, 1000000000);
    let mb = d + "MB"@;
    assert(mb.subrange(mb.len() - 2, mb.len() as int) =~= "MB"@);
    assert(mb.subrange(mb.len() - 3, mb.len() as int)[0] == d[n - 1]);
    assert(mb.subrange(mb.len() - 2, mb.len() as int)[0] != "GB"@[0]);
    lemma_unit_token(d, "MB"@, 1000000);
    let kb = d + "KB"@;
    assert(kb.subrange(kb.len() - 2, kb.len() as int) =~= "KB"@);
    assert(kb.subrange(kb.len() - 3, kb.len() as int)[0] == d[n - 1]);
    assert(kb.subrange(kb.len() - 2, kb.len() as int)[0] != "GB"@[0]);
    assert(kb.subrange(kb.len() - 2, kb.len() as int)[0] != "MB"@[0]);
    lemma_unit_token(d, "KB"@, 1000);
    let b = d + "B"@;
    assert(b.subrange(b.len() - 1, b.len() as int) =~= "B"@);
    assert(b.subrange(b.len() - 2, b.len() as int)[0] == d[n - 1]);
    if n >= 2 {
        assert(b.subrange(b.len() - 3, b.len() as int)[1] == d[n - 1]);
    }
    lemma_unit_token(d, "B"@, 1);
}

proof fn lemma_split_over_digits(d: Seq<char>, rest: Seq<char>, cur: Seq<char>)
    requires
        all_digits(d),
    ensures
        split_from(d + rest, ':', cur) == split_from(rest, ':', cur + d),
    decreases d.len(),
{
    if d.len() == 0 {
        assert(d + rest =~= rest);
        assert(cur + d =~= cur);
    } else {
        let t = d + rest;
        assert(is_digit(d[0]));
        assert(t[0] == d[0]);
        assert(t.drop_first() =~= d.drop_first() + rest);
        assert(all_digits(d.drop_first())) by {
            assert forall|i: int| 0 <= i < d.drop_first().len() implies is_digit(
                #[trigger] d.drop_first()[i],
            ) by {
                assert(d.drop_first()[i] == d[i + 1]);
            }
        }
        lemma_split_over_digits(d.drop_first(), rest, cur.push(d[0]));
        assert(cur.push(d[0]) + d.drop_first() =~= cur + d);
    }
}

proof fn lemma_split_last_field(d: Seq<char>, cur: Seq<char>)
    requires
        all_digits(d),
    ensures
        split_from(d, ':', cur) == seq![cur + d],
{
    lemma_split_over_digits(d, Seq::empty(), cur);
    assert(d + Seq::<char>::empty() =~= d);
}

/// A time of whole fields is the weighted sum of its fields in seconds
/// (saturated): `90`, `1:30` and `0:01:30` are all 90 seconds.
pub proof fn lemma_eta_of_whole_fields(h: Seq<char>, m: Seq<char>, x: Seq<char>)
    requires
        all_digits(h),
        1 <= h.len() <= MAX_DIGITS,
        all_digits(m),
        1 <= m.len() <= MAX_DIGITS,
        all_digits(x),
        1 <= x.len() <= MAX_DIGITS,
    ensures
        eta_of(x) == Some(capped(digits_value(x))),
        eta_of(m + ":"@ + x) == Some(capped(digits_value(m) * 60 + digits_value(x))),
        eta_of(h + ":"@ + m + ":"@ + x) == Some(
            capped(digits_value(h) * 3600 + digits_value(m) * 60 + digits_value(x)),
        ),
{
    reveal_strlit(":");
    lemma_whole_decimal(h);
    lemma_whole_decimal(m);
    lemma_whole_decimal(x);
    assert(is_digit(x.last()) && is_digit(m[0]) && is_digit(h[0]));
    let empty = Seq::<char>::empty();
    assert(empty + x =~= x);
    assert(empty + m =~= m);
    assert(empty + h =~= h);

    lemma_split_last_field(x, empty);
    assert(split(x, ':') == seq![x]);

    let two = m + ":"@ + x;
    assert(two[0] == m[0]);
    assert(two.last() == x.last());
    lemma_trim_unchanged(two);
    assert(two =~= m + (":"@ + x));
    lemma_split_over_digits(m, ":"@ + x, empty);
    assert((":"@ + x).drop_first() =~= x);
    lemma_split_last_field(x, empty);
    assert(split(two, ':') =~= seq![m, x]);

    let three = h + ":"@ + m + ":"@ + x;
    assert(three[0] == h[0]);
    assert(three.last() == x.last());
    lemma_trim_unchanged(three);
    assert(three =~= h + (":"@ + (m + (":"@ + x))));
    lemma_split_over_digits(h, ":"@ + (m + (":"@ + x)), empty);
    assert((":"@ + (m + (":"@ + x))).drop_first() =~= m + (":"@ + x));
    assert(split_from(":"@ + (m + (":"@ + x)), ':', h) == seq![h] + split_from(
        m + (":"@ + x),
        ':',
        empty,
    ));
    assert(split(three, ':') =~= seq![h, m, x]);
}

} // verus!
