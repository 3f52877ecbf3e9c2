//! Durations as text: the short form used to report drifts, and the
//! `<number><unit>` form accepted on the benchmark's command line.

use vstd::prelude::*;
use std::time::Duration;
use vstd::string::StringExecFns;
use crate::duration::duration_nanos;
use crate::scheduler::Drift;
use crate::text::chars_of;

verus! {

/// `String::push`: appends one character.
pub assume_specification[ String::push ](s: &mut String, ch: char)
    ensures
        final(s)@ == old(s)@.push(ch),
;

/// The decimal digit for `d < 10`.
pub open spec fn digit_char(d: int) -> char {
    ((d + 48) as u32) as char
}

/// The decimal form of `n`, without leading zeros.
pub open spec fn decimal(n: nat) -> Seq<char>
    decreases n,
{
    if n < 10 {
        seq![digit_char(n as int)]
    } else {
        decimal(n / 10).push(digit_char((n % 10) as int))
    }
}

/// `n < 1000` in exactly three decimal digits.
pub open spec fn three_digits(n: nat) -> Seq<char> {
    seq![digit_char((n / 100) as int), digit_char(((n / 10) % 10) as int), digit_char((n % 10) as int)]
}

/// A duration in the most readable unit: whole nanoseconds, microseconds or
/// milliseconds below a second, else seconds with milliseconds when there are any.
pub open spec fn duration_text(nanos: nat) -> Seq<char> {
    if nanos < 1_000 {
        decimal(nanos) + "ns"@
    } else if nanos < 1_000_000 {
        decimal(nanos / 1_000) + "µs"@
    } else if nanos < 1_000_000_000 {
        decimal(nanos / 1_000_000) + "ms"@
    } else {
        let ms = (nanos % 1_000_000_000) / 1_000_000;
        if ms == 0 {
            decimal(nanos / 1_000_000_000) + "s"@
        } else {
            decimal(nanos / 1_000_000_000) + "."@ + three_digits(ms) + "s"@
        }
    }
}

/// A drift as text: `-` and the duration when early, `+` and the duration
/// when late, `0ns` on time.
pub open spec fn drift_text(d: Drift) -> Seq<char> {
    match d {
        Drift::Early(x) => "-"@ + duration_text(duration_nanos(x) as nat),
        Drift::OnTime => "0ns"@,
        Drift::Late(x) => "+"@ + duration_text(duration_nanos(x) as nat),
    }
}

fn digit(d: u128) -> (c: char)
    requires
        d < 10,
    ensures
        c == digit_char(d as int),
{
    let b = (d as u8) + 48u8;
    b as char
}

/// Appends the decimal form of `n`.
pub(crate) fn push_decimal(s: &mut String, n: u128)
    ensures
        final(s)@ == old(s)@ + decimal(n as nat),
    decreases n,
{
    if n >= 10 {
        push_decimal(s, n / 10);
    }
    s.push(digit(n % 10));
    proof {
        if n >= 10 {
            assert(final(s)@ =~= old(s)@ + decimal(n as nat));
        } else {
            assert(final(s)@ =~= old(s)@ + decimal(n as nat));
        }
    }
}

/// Appends the characters of `text`.
pub(crate) fn push_str(s: &mut String, text: &str)
    ensures
        final(s)@ == old(s)@ + text@,
{
    s.append(text);
}

/// Format a `Duration` using the most readable unit.
pub fn fmt_duration(d: Duration) -> (r: String)
    ensures
        r@ == duration_text(duration_nanos(d) as nat),
{
    let nanos = d.as_nanos();
    let mut s = String::new();
    if nanos < 1_000 {
        push_decimal(&mut s, nanos);
        push_str(&mut s, "ns");
    } else if nanos < 1_000_000 {
        push_decimal(&mut s, nanos / 1_000);
        push_str(&mut s, "µs");
    } else if nanos < 1_000_000_000 {
        push_decimal(&mut s, nanos / 1_000_000);
        push_str(&mut s, "ms");
    } else {
        let secs = nanos / 1_000_000_000;
        let ms = (nanos % 1_000_000_000) / 1_000_000;
        push_decimal(&mut s, secs);
        if ms != 0 {
            push_str(&mut s, ".");
            s.push(digit(ms / 100));
            s.push(digit((ms / 10) % 10));
            s.push(digit(ms % 10));
        }
        push_str(&mut s, "s");
    }
    proof {
        assert(s@ =~= duration_text(duration_nanos(d) as nat));
    }
    s
}

impl Drift {
    /// The drift as text, as its `Display` form shows it.
    pub fn to_display_string(&self) -> (r: String)
        ensures
            r@ == drift_text(*self),
    {
        match self {
            Drift::Early(d) => {
                let mut s = String::new();
                push_str(&mut s, "-");
                let t = fmt_duration(*d);
                push_str(&mut s, t.as_str());
                s
            },
            Drift::OnTime => {
                let mut s = String::new();
                push_str(&mut s, "0ns");
                s
            },
            Drift::Late(d) => {
                let mut s = String::new();
                push_str(&mut s, "+");
                let t = fmt_duration(*d);
                push_str(&mut s, t.as_str());
                s
            },
        }
    }
}

/// Whether `c` is an ASCII decimal digit.
pub open spec fn is_digit(c: char) -> bool {
    '0' <= c <= '9'
}

/// The value of a string of decimal digits.
pub open spec fn digits_value(c: Seq<char>) -> nat
    decreases c.len(),
{
    if c.len() == 0 {
        0
    } else {
        digits_value(c.drop_last()) * 10 + ((c.last() as u32) - 48) as nat
    }
}

/// `c` without its leading `+`, if it has one.
pub open spec fn unsigned_part(c: Seq<char>) -> Seq<char> {
    if c.len() > 0 && c[0] == '+' {
        c.drop_first()
    } else {
        c
    }
}

/// What `u64::from_str` gives for `c`: an optional `+`, then one or more
/// decimal digits whose value fits in 64 bits.
pub open spec fn parse_u64(c: Seq<char>) -> Option<u64> {
    let d = unsigned_part(c);
    if d.len() > 0 && (forall|i: int| 0 <= i < d.len() ==> is_digit(#[trigger] d[i]))
        && digits_value(d) <= u64::MAX {
        Some(digits_value(d) as u64)
    } else {
        None
    }
}

/// `c` ends with `suffix`.
pub open spec fn ends_with(c: Seq<char>, suffix: Seq<char>) -> bool {
    c.len() >= suffix.len() && c.subrange(c.len() - suffix.len(), c.len() as int) == suffix
}

/// The number in front of a unit that scales it to nanoseconds by `scale`.
pub open spec fn number_with_unit(num: Seq<char>, scale: int) -> Result<int, Seq<char>> {
    if num.len() == 0 {
        Err("duration must have a numeric value before the unit"@)
    } else {
        match parse_u64(num) {
            Some(v) => Ok(v * scale),
            None => Err("invalid numeric value '"@ + num + "' in duration"@),
        }
    }
}

/// A duration written as a number followed by one of the units `ns`, `us`,
/// `ms`, `s`: its length in nanoseconds, or the message that says what is wrong.
pub open spec fn duration_arg(c: Seq<char>) -> Result<int, Seq<char>> {
    if c.len() == 0 {
        Err("duration cannot be empty"@)
    } else if ends_with(c, "ms"@) {
        number_with_unit(c.subrange(0, c.len() - 2), 1_000_000)
    } else if ends_with(c, "us"@) {
        number_with_unit(c.subrange(0, c.len() - 2), 1_000)
    } else if ends_with(c, "ns"@) {
        number_with_unit(c.subrange(0, c.len() - 2), 1)
    } else if c.last() != 's' {
        Err("invalid duration unit '"@ + seq![c.last()] + "': supported units are ns, us, ms, s"@)
    } else {
        number_with_unit(c.drop_last(), 1_000_000_000)
    }
}

/// `u64::from_str` on the characters `c[start..end]`.
pub(crate) fn parse_u64_at(c: &Vec<char>, start: usize, end: usize) -> (r: Option<u64>)
    requires
        start <= end <= c@.len(),
    ensures
        r == parse_u64(c@.subrange(start as int, end as int)),
{
    let ghost whole = c@.subrange(start as int, end as int);
    let mut i = start;
    if i < end && c[i] == '+' {
        i += 1;
    }
    let ghost d = c@.subrange(i as int, end as int);
    proof {
        if start < end && c@[start as int] == '+' {
            assert(d =~= whole.drop_first());
        } else {
            assert(d =~= whole);
        }
    }
    if i == end {
        return None;
    }
    let mut value: u64 = 0;
    let mut j = i;
    while j < end
        invariant
            start <= i <= j <= end <= c@.len(),
            d == c@.subrange(i as int, end as int),
            whole == c@.subrange(start as int, end as int),
            d == unsigned_part(whole),
            d.len() > 0,
            forall|k: int| i <= k < j ==> is_digit(#[trigger] c@[k]),
            value == digits_value(c@.subrange(i as int, j as int)),
        decreases end - j,
    {
        let ch = c[j];
        proof {
            assert(c@.subrange(i as int, j + 1).drop_last() =~= c@.subrange(i as int, j as int));
        }
        if !('0' <= ch && ch <= '9') {
            proof {
                assert(d[j - i] == ch);
                assert(!is_digit(d[j - i]));
                assert(!(forall|k: int| 0 <= k < d.len() ==> is_digit(#[trigger] d[k])));
                assert(parse_u64(whole) is None);
            }
            return None;
        }
        let digit_value = (ch as u32 - 48) as u64;
        if value > (u64::MAX - digit_value) / 10 {
            proof {
                let prefix = c@.subrange(i as int, j + 1);
                assert(digits_value(prefix) == value * 10 + digit_value);
                assert(value * 10 + digit_value > u64::MAX) by (nonlinear_arith)
                    requires
                        value > (u64::MAX - digit_value) / 10,
                        digit_value <= 9,
                ;
                if forall|k: int| 0 <= k < d.len() ==> is_digit(#[trigger] d[k]) {
                    lemma_digits_value_grows(d, (j - i + 1) as int);
                    assert(d.take((j - i + 1) as int) =~= prefix);
                }
                assert(parse_u64(whole) is None);
            }
            return None;
        }
        value = value * 10 + digit_value;
        j += 1;
    }
    proof {
        assert(c@.subrange(i as int, j as int) =~= d);
        assert(forall|k: int| 0 <= k < d.len() ==> #[trigger] d[k] == c@[i + k]);
    }
    Some(value)
}

/// The decimal form of a number reads back as that number.
pub proof fn lemma_decimal_parses(n: nat)
    requires
        n <= u64::MAX,
    ensures
        parse_u64(decimal(n)) == Some(n as u64),
{
    lemma_decimal_digits(n);
    assert(unsigned_part(decimal(n)) == decimal(n)) by {
        assert(is_digit(decimal(n)[0]));
    }
}

/// The decimal form of `n` is a non-empty string of digits whose value is `n`.
pub proof fn lemma_decimal_digits(n: nat)
    ensures
        decimal(n).len() > 0,
        forall|i: int| 0 <= i < decimal(n).len() ==> is_digit(#[trigger] decimal(n)[i]),
        digits_value(decimal(n)) == n,
    decreases n,
{
    if n < 10 {
        assert(digits_value(decimal(n)) == digits_value(decimal(n).drop_last()) * 10 + n);
        assert(decimal(n).drop_last() =~= Seq::<char>::empty());
    } else {
        lemma_decimal_digits(n / 10);
        let s = decimal(n);
        let prev = decimal(n / 10);
        assert(s.drop_last() =~= prev);
        assert forall|i: int| 0 <= i < s.len() implies is_digit(#[trigger] s[i]) by {
            if i < prev.len() {
                assert(s[i] == prev[i]);
            }
        }
        assert(digits_value(s) == (n / 10) * 10 + n % 10);
        vstd::arithmetic::div_mod::lemma_fundamental_div_mod(n as int, 10);
    }
}

/// A number written in decimal and followed by a unit reads back as that
/// many units, in nanoseconds: `ns` one each, `us` a thousand, `ms` a
/// million, `s` a billion.
pub proof fn lemma_duration_arg_reads_units(n: nat)
    requires
        n <= u64::MAX,
    ensures
        duration_arg(decimal(n) + "ns"@) == Ok::<int, Seq<char>>(n as int),
        duration_arg(decimal(n) + "us"@) == Ok::<int, Seq<char>>((n * 1_000) as int),
        duration_arg(decimal(n) + "ms"@) == Ok::<int, Seq<char>>((n * 1_000_000) as int),
        duration_arg(decimal(n) + "s"@) == Ok::<int, Seq<char>>((n * 1_000_000_000) as int),
{
    reveal_strlit("ns");
    reveal_strlit("us");
    reveal_strlit("ms");
    reveal_strlit("s");
    lemma_decimal_digits(n);
    lemma_decimal_parses(n);
    let d = decimal(n);
    let last = d[d.len() - 1];
    assert(is_digit(last));

    let c = d + "ms"@;
    assert(c.subrange(c.len() - 2, c.len() as int) =~= "ms"@);
    assert(c.subrange(0, c.len() - 2) =~= d);

    let c = d + "us"@;
    assert(c.subrange(c.len() - 2, c.len() as int) =~= "us"@);
    assert(c.subrange(0, c.len() - 2) =~= d);
    assert(!ends_with(c, "ms"@)) by {
        assert(c.subrange(c.len() - 2, c.len() as int)[0] == 'u');
    }

    let c = d + "ns"@;
    assert(c.subrange(c.len() - 2, c.len() as int) =~= "ns"@);
    assert(c.subrange(0, c.len() - 2) =~= d);
    assert(!ends_with(c, "ms"@) && !ends_with(c, "us"@)) by {
        assert(c.subrange(c.len() - 2, c.len() as int)[0] == 'n');
    }

    let c = d + "s"@;
    assert(c.last() == 's');
    assert(c.drop_last() =~= d);
    assert(c.subrange(c.len() - 2, c.len() as int)[0] == last);
    assert(!ends_with(c, "ms"@) && !ends_with(c, "us"@) && !ends_with(c, "ns"@));
}

/// A longer prefix of a digit string never has a smaller value.
proof fn lemma_digits_value_grows(d: Seq<char>, k: int)
    requires
        0 <= k <= d.len(),
        forall|i: int| 0 <= i < d.len() ==> is_digit(#[trigger] d[i]),
    ensures
        digits_value(d.take(k)) <= digits_value(d),
    decreases d.len() - k,
{
    if k < d.len() {
        lemma_digits_value_grows(d, k + 1);
        assert(d.take(k + 1).drop_last() =~= d.take(k));
        assert(is_digit(d[k]));
    } else {
        assert(d.take(k) =~= d);
    }
}

/// The message for a number that does not parse.
fn invalid_number(c: &Vec<char>, end: usize) -> (r: String)
    requires
        end <= c@.len(),
    ensures
        r@ == "invalid numeric value '"@ + c@.subrange(0, end as int) + "' in duration"@,
{
    let mut s = String::new();
    push_str(&mut s, "invalid numeric value '");
    let mut i: usize = 0;
    while i < end
        invariant
            end <= c@.len(),
            0 <= i <= end,
            s@ == "invalid numeric value '"@ + c@.subrange(0, i as int),
        decreases end - i,
    {
        s.push(c[i]);
        i += 1;
        proof {
            assert(s@ =~= "invalid numeric value '"@ + c@.subrange(0, i as int));
        }
    }
    push_str(&mut s, "' in duration");
    s
}

/// A number in front of a unit of `scale` nanoseconds, the number being `c[0..end]`.
fn number_before_unit(c: &Vec<char>, end: usize, scale: u64) -> (r: Result<Duration, String>)
    requires
        end <= c@.len(),
        scale == 1 || scale == 1_000 || scale == 1_000_000 || scale == 1_000_000_000,
    ensures
        match number_with_unit(c@.subrange(0, end as int), scale as int) {
            Ok(n) => r matches Ok(d) && duration_nanos(d) == n,
            Err(m) => r matches Err(e) && e@ == m,
        },
{
    if end == 0 {
        let mut s = String::new();
        push_str(&mut s, "duration must have a numeric value before the unit");
        return Err(s);
    }
    match parse_u64_at(c, 0, end) {
        Some(v) => if scale == 1 {
            Ok(Duration::from_nanos(v))
        } else if scale == 1_000 {
            Ok(Duration::from_micros(v))
        } else if scale == 1_000_000 {
            Ok(Duration::from_millis(v))
        } else {
            Ok(Duration::from_secs(v))
        },
        None => Err(invalid_number(c, end)),
    }
}

/// Parse a duration with units (ns, us, ms, s) into a Duration.
pub fn parse_duration_with_units(s: &str) -> (r: Result<Duration, String>)
    ensures
        match duration_arg(s@) {
            Ok(n) => r matches Ok(d) && duration_nanos(d) == n,
            Err(m) => r matches Err(e) && e@ == m,
        },
{
    proof {
        reveal_strlit("ms");
        reveal_strlit("us");
        reveal_strlit("ns");
    }
    let c = chars_of(s);
    let n = c.len();
    if n == 0 {
        let mut e = String::new();
        push_str(&mut e, "duration cannot be empty");
        return Err(e);
    }
    let last = c[n - 1];
    if n >= 2 && c[n - 2] == 'm' && last == 's' {
        proof {
            assert(c@.subrange(n - 2, n as int) =~= "ms"@);
        }
        return number_before_unit(&c, n - 2, 1_000_000);
    }
    if n >= 2 && c[n - 2] == 'u' && last == 's' {
        proof {
            assert(c@.subrange(n - 2, n as int) =~= "us"@);
            assert(!ends_with(c@, "ms"@)) by {
                assert(c@.subrange(n - 2, n as int)[0] == 'u');
            }
        }
        return number_before_unit(&c, n - 2, 1_000);
    }
    if n >= 2 && c[n - 2] == 'n' && last == 's' {
        proof {
            assert(c@.subrange(n - 2, n as int) =~= "ns"@);
            assert(!ends_with(c@, "ms"@)) by {
                assert(c@.subrange(n - 2, n as int)[0] == 'n');
            }
            assert(!ends_with(c@, "us"@)) by {
                assert(c@.subrange(n - 2, n as int)[0] == 'n');
            }
        }
        return number_before_unit(&c, n - 2, 1);
    }
    proof {
        if n >= 2 {
            assert(c@.subrange(n - 2, n as int)[0] == c@[n - 2]);
            assert(c@.subrange(n - 2, n as int)[1] == c@[n - 1]);
        }
    }
    if last != 's' {
        let mut e = String::new();
        push_str(&mut e, "invalid duration unit '");
        e.push(last);
        push_str(&mut e, "': supported units are ns, us, ms, s");
        return Err(e);
    }
    proof {
        assert(c@.drop_last() =~= c@.subrange(0, n - 1));
    }
    number_before_unit(&c, n - 1, 1_000_000_000)
}

} // verus!
