//! Strings as character sequences: their order, and decimal numerals.

use vstd::prelude::*;

verus! {

/// `a` comes strictly before `b` when the two are compared character by
/// character, by code point, a proper prefix coming first.
pub open spec fn lex_lt(a: Seq<char>, b: Seq<char>) -> bool
    decreases a.len(),
{
    if b.len() == 0 {
        false
    } else if a.len() == 0 {
        true
    } else if a[0] != b[0] {
        (a[0] as u32) < (b[0] as u32)
    } else {
        lex_lt(a.drop_first(), b.drop_first())
    }
}

/// No sequence comes before itself.
pub proof fn lemma_lex_lt_irreflexive(a: Seq<char>)
    ensures
        !lex_lt(a, a),
    decreases a.len(),
{
    if a.len() > 0 {
        lemma_lex_lt_irreflexive(a.drop_first());
    }
}

/// The order is transitive.
pub proof fn lemma_lex_lt_transitive(a: Seq<char>, b: Seq<char>, c: Seq<char>)
    requires
        lex_lt(a, b),
        lex_lt(b, c),
    ensures
        lex_lt(a, c),
    decreases a.len(),
{
    if a.len() > 0 && a[0] == b[0] && b[0] == c[0] {
        lemma_lex_lt_transitive(a.drop_first(), b.drop_first(), c.drop_first());
    }
}

/// Of two different sequences one comes before the other.
pub proof fn lemma_lex_lt_total(a: Seq<char>, b: Seq<char>)
    ensures
        a == b || lex_lt(a, b) || lex_lt(b, a),
    decreases a.len(),
{
    if a.len() == 0 || b.len() == 0 {
        if a.len() == 0 && b.len() == 0 {
            assert(a =~= b);
        }
    } else if a[0] == b[0] {
        lemma_lex_lt_total(a.drop_first(), b.drop_first());
        if a.drop_first() == b.drop_first() {
            assert(a =~= seq![a[0]] + a.drop_first());
            assert(b =~= seq![b[0]] + b.drop_first());
        }
    } else {
        assert((a[0] as u32) != (b[0] as u32)) by {
            vstd::utf8::char_u32_cast(a[0], a[0] as u32);
            vstd::utf8::char_u32_cast(b[0], b[0] as u32);
            if (a[0] as u32) == (b[0] as u32) {
                assert(a[0] == ((a[0] as u32) as char));
                assert(b[0] == ((b[0] as u32) as char));
            }
        }
    }
}

/// Compares two strings as `str`'s own `<` does. std documents that order as
/// lexicographic by byte values, which for valid UTF-8 is the order of the
/// code point sequences; the contract states that much.
#[verifier::external_body]
pub(crate) fn str_lt(a: &str, b: &str) -> (r: bool)
    ensures
        r == lex_lt(a@, b@),
{
    a < b
}

/// Compares two string slices with `str`'s own `==`: equal when they hold the
/// same characters.
#[verifier::external_body]
pub(crate) fn str_eq(a: &str, b: &str) -> (r: bool)
    ensures
        r == (a@ == b@),
{
    a == b
}

/// Appends one character with `String::push`.
#[verifier::external_body]
pub(crate) fn push_char(s: &mut String, c: char)
    ensures
        final(s)@ == old(s)@.push(c),
{
    s.push(c)
}

/// The decimal digit for a value below ten.
pub open spec fn digit_char(d: nat) -> char
    recommends
        d < 10,
{
    if d == 0 {
        '0'
    } else if d == 1 {
        '1'
    } else if d == 2 {
        '2'
    } else if d == 3 {
        '3'
    } else if d == 4 {
        '4'
    } else if d == 5 {
        '5'
    } else if d == 6 {
        '6'
    } else if d == 7 {
        '7'
    } else if d == 8 {
        '8'
    } else {
        '9'
    }
}

/// The decimal numeral of `n`, without leading zeros.
pub open spec fn decimal(n: nat) -> Seq<char>
    decreases n,
{
    if n < 10 {
        seq![digit_char(n)]
    } else {
        decimal(n / 10).push(digit_char(n % 10))
    }
}

fn digit_of(d: u64) -> (c: char)
    requires
        d < 10,
    ensures
        c == digit_char(d as nat),
{
    if d == 0 {
        '0'
    } else if d == 1 {
        '1'
    } else if d == 2 {
        '2'
    } else if d == 3 {
        '3'
    } else if d == 4 {
        '4'
    } else if d == 5 {
        '5'
    } else if d == 6 {
        '6'
    } else if d == 7 {
        '7'
    } else if d == 8 {
        '8'
    } else {
        '9'
    }
}

/// Appends the decimal numeral of `n` to `out`.
pub fn push_decimal(out: &mut String, n: u64)
    ensures
        final(out)@ == old(out)@ + decimal(n as nat),
    decreases n,
{
    if n >= 10 {
        push_decimal(out, n / 10);
    }
    push_char(out, digit_of(n % 10));
    proof {
        if n >= 10 {
            assert(final(out)@ =~= old(out)@ + decimal(n as nat));
        } else {
            assert(final(out)@ =~= old(out)@ + decimal(n as nat));
        }
    }
}

/// The decimal numeral of `n` as a string.
pub fn decimal_string(n: u64) -> (s: String)
    ensures
        s@ == decimal(n as nat),
{
    let mut s = String::new();
    push_decimal(&mut s, n);
    assert(s@ =~= decimal(n as nat));
    s
}

/// The value of a decimal digit.
pub open spec fn digit_value(c: char) -> Option<nat> {
    if '0' <= c <= '9' {
        Some((c as u32 - '0' as u32) as nat)
    } else {
        None
    }
}

/// The number that a string of decimal digits spells; zero for the empty
/// string, `None` where a character is no digit.
pub open spec fn digits_value(s: Seq<char>) -> Option<nat>
    decreases s.len(),
{
    if s.len() == 0 {
        Some(0)
    } else {
        match (digits_value(s.drop_last()), digit_value(s.last())) {
            (Some(high), Some(d)) => Some(high * 10 + d),
            _ => None,
        }
    }
}

/// The place of the first point in `s`, or the length of `s`.
pub open spec fn point_at(s: Seq<char>) -> int
    decreases s.len(),
{
    if s.len() == 0 || s[0] == '.' {
        0
    } else {
        1 + point_at(s.drop_first())
    }
}

/// The digit of `f` at place `i`, zero beyond its end.
pub open spec fn digit_or_zero(f: Seq<char>, i: int) -> nat {
    if 0 <= i < f.len() && digit_value(f[i]) is Some {
        digit_value(f[i])->Some_0
    } else {
        0
    }
}

/// The thousandths that the digits after a point stand for: the first
/// three count, the rest is cut off.
pub open spec fn thousandths(f: Seq<char>) -> nat {
    digit_or_zero(f, 0) * 100 + digit_or_zero(f, 1) * 10 + digit_or_zero(f, 2)
}

/// The most digits before the point that a time stamp may have.
pub const MAX_WHOLE_DIGITS: usize = 15;

/// A thousand times the number that an unsigned decimal numeral spells:
/// one to fifteen digits, then nothing or a point and at least one digit.
pub open spec fn unsigned_millis(s: Seq<char>) -> Option<nat> {
    let k = point_at(s);
    if k == 0 || k > MAX_WHOLE_DIGITS {
        None
    } else {
        match digits_value(s.take(k)) {
            None => None,
            Some(whole) => if k == s.len() {
                Some(whole * 1000)
            } else if k + 1 == s.len() || digits_value(s.skip(k + 1)) is None {
                None
            } else {
                Some(whole * 1000 + thousandths(s.skip(k + 1)))
            },
        }
    }
}

/// A thousand times the number that a decimal numeral spells, cut off
/// after the third place: seconds as text, in milliseconds. A numeral may
/// start with a minus sign; one with an exponent is not read.
pub open spec fn decimal_millis(s: Seq<char>) -> Option<int> {
    if s.len() > 0 && s[0] == '-' {
        match unsigned_millis(s.drop_first()) {
            Some(m) => Some(-(m as int)),
            None => None,
        }
    } else {
        match unsigned_millis(s) {
            Some(m) => Some(m as int),
            None => None,
        }
    }
}

/// Ten to the power `n`.
pub open spec fn pow10(n: nat) -> nat
    decreases n,
{
    if n == 0 {
        1
    } else {
        10 * pow10((n - 1) as nat)
    }
}

/// Where a character is no digit, the string spells no number.
pub proof fn lemma_digits_all(s: Seq<char>, i: int)
    requires
        0 <= i < s.len(),
        digit_value(s[i]) is None,
    ensures
        digits_value(s) is None,
    decreases s.len(),
{
    if i < s.len() - 1 {
        lemma_digits_all(s.drop_last(), i);
    }
}

/// The first point of `s` is where no earlier character is a point.
pub proof fn lemma_point_at(s: Seq<char>, k: int)
    requires
        0 <= k <= s.len(),
        forall|i: int| 0 <= i < k ==> s[i] != '.',
        k == s.len() || s[k] == '.',
    ensures
        point_at(s) == k,
    decreases s.len(),
{
    if k > 0 {
        let rest = s.drop_first();
        assert forall|i: int| 0 <= i < k - 1 implies rest[i] != '.' by {
            assert(rest[i] == s[i + 1]);
        }
        lemma_point_at(rest, k - 1);
    }
}

fn digit_of_char(c: char) -> (r: Option<u64>)
    ensures
        r is Some <==> digit_value(c) is Some,
        r matches Some(d) ==> d == digit_value(c)->Some_0 && d < 10,
{
    if c >= '0' && c <= '9' {
        Some((c as u32 - '0' as u32) as u64)
    } else {
        None
    }
}

/// Reads the digits of `s` from place `start` up to the first point or the
/// end: their value, and the place where they stop.
pub(crate) fn parse_whole(s: &str, start: usize) -> (r: Option<(u64, usize)>)
    requires
        start <= s@.len(),
    ensures
        r matches Some(pair) ==> pair.1 == start + point_at(s@.skip(start as int)) && 0 < point_at(s@.skip(start as int))
            <= MAX_WHOLE_DIGITS && digits_value(s@.skip(start as int).take(point_at(s@.skip(start as int)))) == Some(
            pair.0 as nat,
        ) && pair.0 < 1_000_000_000_000_000 && pair.1 <= s@.len(),
        r is None ==> point_at(s@.skip(start as int)) == 0 || point_at(s@.skip(start as int)) > MAX_WHOLE_DIGITS
            || digits_value(s@.skip(start as int).take(point_at(s@.skip(start as int)))) is None,
{
    let n = s.unicode_len();
    let ghost body = s@.skip(start as int);
    let mut i: usize = start;
    let mut whole: u64 = 0;
    assert(body.take(0) =~= Seq::<char>::empty());
    proof {
        lemma_pow10_monotone(0, MAX_WHOLE_DIGITS as nat);
        lemma_pow10_values();
    }
    while i < n && s.get_char(i) != '.'
        invariant
            start <= i <= n,
            n == s@.len(),
            body == s@.skip(start as int),
            i - start <= MAX_WHOLE_DIGITS,
            forall|j: int| 0 <= j < i - start ==> body[j] != '.',
            digits_value(body.take(i - start)) == Some(whole as nat),
            whole < pow10((i - start) as nat),
            pow10((i - start) as nat) <= pow10(MAX_WHOLE_DIGITS as nat),
            pow10(MAX_WHOLE_DIGITS as nat) == 1_000_000_000_000_000,
        decreases n - i,
    {
        let c = s.get_char(i);
        let ghost k = i - start;
        assert(body[k] == c);
        assert(c != '.');
        proof {
            assert(body.take(k + 1).drop_last() =~= body.take(k));
            assert(body.take(k + 1).last() == c);
            lemma_point_beyond(body, k + 1);
        }
        match digit_of_char(c) {
            Some(d) => {
                if i - start >= MAX_WHOLE_DIGITS {
                    return None;
                }
                proof {
                    lemma_pow10_monotone((k + 1) as nat, MAX_WHOLE_DIGITS as nat);
                }
                whole = whole * 10 + d;
            },
            None => {
                proof {
                    let stop = point_at(body);
                    if stop <= MAX_WHOLE_DIGITS {
                        lemma_digits_all(body.take(stop), k);
                    }
                }
                return None;
            },
        }
        i += 1;
    }
    proof {
        lemma_point_at(body, i - start);
    }
    if i == start {
        return None;
    }
    Some((whole, i))
}

/// Reads the digits of `s` from place `first` to the end, of which there
/// must be at least one: the thousandths they stand for.
fn parse_fraction(s: &str, first: usize) -> (r: Option<u64>)
    requires
        first <= s@.len(),
    ensures
        r matches Some(part) ==> s@.skip(first as int).len() > 0 && digits_value(s@.skip(first as int)) is Some && part
            == thousandths(s@.skip(first as int)) && part <= 999,
        r is None ==> s@.skip(first as int).len() == 0 || digits_value(s@.skip(first as int)) is None,
{
    let n = s.unicode_len();
    if first >= n {
        return None;
    }
    let ghost frac = s@.skip(first as int);
    let mut j: usize = first;
    let mut scale: u64 = 100;
    let mut part: u64 = 0;
    assert(frac.take(0) =~= Seq::<char>::empty());
    while j < n
        invariant
            first <= j <= n,
            n == s@.len(),
            frac == s@.skip(first as int),
            digits_value(frac.take(j - first)) is Some,
            forall|m: int| 0 <= m < j - first ==> digit_value(#[trigger] frac[m]) is Some,
            part == (if j - first > 0 { digit_or_zero(frac, 0) * 100 } else { 0 }) + (if j - first > 1 {
                digit_or_zero(frac, 1) * 10
            } else {
                0
            }) + (if j - first > 2 { digit_or_zero(frac, 2) } else { 0 }),
            scale == (if j - first == 0 {
                100u64
            } else if j - first == 1 {
                10u64
            } else if j - first == 2 {
                1u64
            } else {
                0u64
            }),
            part <= 999,
        decreases n - j,
    {
        let c = s.get_char(j);
        let ghost m = j - first;
        assert(frac[m] == c);
        proof {
            assert(frac.take(m + 1).drop_last() =~= frac.take(m));
            assert(frac.take(m + 1).last() == c);
        }
        match digit_of_char(c) {
            Some(d) => {
                part = part + d * scale;
                scale = scale / 10;
            },
            None => {
                proof {
                    lemma_digits_all(frac, m);
                }
                return None;
            },
        }
        j += 1;
    }
    assert(frac.take(j - first) =~= frac);
    Some(part)
}

/// Reads seconds, as text, in milliseconds.
pub fn parse_decimal_millis(s: &str) -> (r: Option<i64>)
    ensures
        r matches Some(ms) ==> decimal_millis(s@) == Some(ms as int),
        r is None ==> decimal_millis(s@) is None,
{
    let n = s.unicode_len();
    let negative = n > 0 && s.get_char(0) == '-';
    let start: usize = if negative { 1 } else { 0 };
    let ghost body = s@.skip(start as int);
    assert(body =~= (if negative { s@.drop_first() } else { s@ }));
    let (whole, stop) = match parse_whole(s, start) {
        Some(pair) => pair,
        None => {
            return None;
        },
    };
    let ghost k = point_at(body);
    let mut millis: u64 = whole * 1000;
    if stop < n {
        assert(body.skip(k + 1) =~= s@.skip(stop + 1));
        match parse_fraction(s, stop + 1) {
            Some(part) => {
                millis = millis + part;
            },
            None => {
                return None;
            },
        }
    }
    if negative {
        Some(-(millis as i64))
    } else {
        Some(millis as i64)
    }
}

/// The powers of ten up to the fifteenth.
proof fn lemma_pow10_values()
    ensures
        pow10(0) == 1,
        pow10(15) == 1_000_000_000_000_000,
{
    reveal_with_fuel(pow10, 17);
}

/// Powers of ten grow with the exponent.
proof fn lemma_pow10_monotone(a: nat, b: nat)
    requires
        a <= b,
    ensures
        pow10(a) <= pow10(b),
    decreases b,
{
    if a < b {
        lemma_pow10_monotone(a, (b - 1) as nat);
    }
}

/// The first point of `s` does not come before `k` where no earlier
/// character is a point.
proof fn lemma_point_beyond(s: Seq<char>, k: int)
    requires
        0 <= k <= s.len(),
        forall|i: int| 0 <= i < k ==> s[i] != '.',
    ensures
        k <= point_at(s) <= s.len(),
    decreases s.len(),
{
    if s.len() > 0 && s[0] != '.' {
        let rest = s.drop_first();
        assert forall|i: int| 0 <= i < k - 1 implies rest[i] != '.' by {
            assert(rest[i] == s[i + 1]);
        }
        lemma_point_beyond(rest, if k > 0 { k - 1 } else { 0 });
    }
}

} // verus!
