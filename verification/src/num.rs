//! Reading and writing unsigned integers as digit strings.
use vstd::prelude::*;
use vstd::arithmetic::power2::{pow2, lemma_pow2_unfold, lemma_pow2_pos};
use vstd::arithmetic::div_mod::{lemma_div_denominator, lemma_fundamental_div_mod};

verus! {

/// The value of `c` as a digit in `radix`, as `char::to_digit` reads it.
pub open spec fn digit_of(c: char, radix: nat) -> Option<nat> {
    let v: int = if '0' <= c && c <= '9' {
        c as int - '0' as int
    } else if 'a' <= c && c <= 'z' {
        c as int - 'a' as int + 10
    } else if 'A' <= c && c <= 'Z' {
        c as int - 'A' as int + 10
    } else {
        radix as int
    };
    if v < radix {
        Some(v as nat)
    } else {
        None
    }
}

/// Whether every character of `ds` is a digit in `radix`.
pub open spec fn all_digits(ds: Seq<char>, radix: nat) -> bool {
    forall|i: int| 0 <= i < ds.len() ==> (#[trigger] digit_of(ds[i], radix)) is Some
}

/// The number that the digits `ds` spell in `radix`, most significant first.
pub open spec fn digits_value(ds: Seq<char>, radix: nat) -> nat
    decreases ds.len(),
{
    if ds.len() == 0 {
        0
    } else {
        digits_value(ds.drop_last(), radix) * radix + match digit_of(ds.last(), radix) {
            Some(d) => d,
            None => 0,
        }
    }
}

/// The result of `from_str_radix` for an unsigned type whose largest value is `max`: an optional
/// leading `'+'`, then at least one digit, and a value no larger than `max`.
pub open spec fn parse_uint_spec(s: Seq<char>, radix: nat, max: nat) -> Option<nat> {
    let ds = if s.len() > 0 && s[0] == '+' {
        s.drop_first()
    } else {
        s
    };
    if ds.len() == 0 || !all_digits(ds, radix) || digits_value(ds, radix) > max {
        None
    } else {
        Some(digits_value(ds, radix))
    }
}

/// Reads the digit `c` in `radix`.
pub fn digit_value(c: char, radix: u64) -> (r: Option<u64>)
    requires
        2 <= radix <= 36,
    ensures
        r == (match digit_of(c, radix as nat) {
            Some(d) => Some(d as u64),
            None => None::<u64>,
        }),
{
    let v: u64 = if '0' <= c && c <= '9' {
        (c as u32 - '0' as u32) as u64
    } else if 'a' <= c && c <= 'z' {
        (c as u32 - 'a' as u32 + 10) as u64
    } else if 'A' <= c && c <= 'Z' {
        (c as u32 - 'A' as u32 + 10) as u64
    } else {
        radix
    };
    if v < radix {
        Some(v)
    } else {
        None
    }
}

proof fn lemma_fits(acc: nat, radix: nat, d: nat, max: nat)
    requires
        radix >= 2,
        d < radix,
        d <= max,
    ensures
        (acc * radix + d <= max) == (acc <= (max - d) / (radix as int)),
{
    let q = (max - d) / (radix as int);
    assert(q * radix <= max - d) by (nonlinear_arith)
        requires
            q == (max - d) / (radix as int),
            radix >= 2,
            max - d >= 0,
    ;
    assert((q + 1) * radix > max - d) by (nonlinear_arith)
        requires
            q == (max - d) / (radix as int),
            radix >= 2,
            max - d >= 0,
    ;
    if acc <= q {
        assert(acc * radix <= q * radix) by (nonlinear_arith)
            requires
                acc <= q,
                radix >= 2,
        ;
    } else {
        assert(acc * radix >= (q + 1) * radix) by (nonlinear_arith)
            requires
                acc >= q + 1,
                radix >= 2,
        ;
    }
}

proof fn lemma_digits_value_monotone(ds: Seq<char>, radix: nat, k: int)
    requires
        radix >= 2,
        0 <= k <= ds.len(),
    ensures
        digits_value(ds.take(k), radix) <= digits_value(ds, radix),
    decreases ds.len() - k,
{
    if k < ds.len() {
        lemma_digits_value_monotone(ds, radix, k + 1);
        let a = digits_value(ds.take(k), radix);
        assert(ds.take(k + 1).drop_last() =~= ds.take(k));
        let b = digits_value(ds.take(k + 1), radix);
        assert(a <= a * radix) by (nonlinear_arith)
            requires
                radix >= 2,
        ;
    } else {
        assert(ds.take(k) =~= ds);
    }
}

/// Reads `s` as an unsigned number in `radix` whose largest allowed value is `max`, accepting
/// exactly what `from_str_radix` accepts.
pub fn parse_uint(s: &Vec<char>, radix: u64, max: u64) -> (r: Option<u64>)
    requires
        2 <= radix <= 36,
    ensures
        r == (match parse_uint_spec(s@, radix as nat, max as nat) {
            Some(v) => Some(v as u64),
            None => None::<u64>,
        }),
{
    let n = s.len();
    let start: usize = if n > 0 && s[0] == '+' {
        1
    } else {
        0
    };
    let ghost ds = if s@.len() > 0 && s@[0] == '+' {
        s@.drop_first()
    } else {
        s@
    };
    proof {
        assert(ds =~= s@.subrange(start as int, n as int));
    }
    if start == n {
        return None;
    }
    let mut acc: u64 = 0;
    let mut i = start;
    while i < n
        invariant
            start <= i <= n,
            n == s@.len(),
            ds == s@.subrange(start as int, n as int),
            ds == (if s@.len() > 0 && s@[0] == '+' {
                s@.drop_first()
            } else {
                s@
            }),
            all_digits(ds.take(i - start), radix as nat),
            acc as nat == digits_value(ds.take(i - start), radix as nat),
            acc <= max,
            2 <= radix <= 36,
        decreases n - i,
    {
        let k: Ghost<int> = Ghost(i - start);
        proof {
            assert(ds.take(k@ + 1).drop_last() =~= ds.take(k@));
            assert(ds.take(k@ + 1).last() == s@[i as int]);
        }
        match digit_value(s[i], radix) {
            None => {
                proof {
                    assert(ds[k@] == s@[i as int]);
                    assert(digit_of(ds[k@], radix as nat) is None);
                    assert(!all_digits(ds, radix as nat));
                }
                return None;
            },
            Some(d) => {
                if d > max || acc > (max - d) / radix {
                    proof {
                        assert(ds[k@] == s@[i as int]);
                        assert(digit_of(ds.take(k@ + 1).last(), radix as nat) == Some(d as nat));
                        assert(digits_value(ds.take(k@ + 1), radix as nat) == acc * radix + d);
                        lemma_digits_value_monotone(ds, radix as nat, k@ + 1);
                        if d <= max {
                            lemma_fits(acc as nat, radix as nat, d as nat, max as nat);
                        } else {
                            assert(acc * radix + d >= d) by (nonlinear_arith)
                                requires
                                    radix >= 2,
                            ;
                        }
                    }
                    return None;
                }
                proof {
                    lemma_fits(acc as nat, radix as nat, d as nat, max as nat);
                    assert(acc * radix <= max) by (nonlinear_arith)
                        requires
                            acc * radix + d <= max,
                    ;
                }
                acc = acc * radix + d;
                proof {
                    assert(digit_of(ds.take(k@ + 1).last(), radix as nat) == Some(d as nat));
                    assert forall|j: int| 0 <= j < ds.take(k@ + 1).len() implies (#[trigger] digit_of(
                        ds.take(k@ + 1)[j],
                        radix as nat,
                    )) is Some by {
                        if j < k@ {
                            assert(ds.take(k@ + 1)[j] == ds.take(k@)[j]);
                        }
                    }
                }
            },
        }
        i = i + 1;
    }
    proof {
        assert(ds.take(n - start) =~= ds);
    }
    Some(acc)
}

/// The digit character for `d` in bases up to 16, lower case.
pub open spec fn digit_char(d: nat) -> char {
    if d < 10 {
        ('0' as int + d) as char
    } else {
        ('a' as int + d - 10) as char
    }
}

/// The digits of `n` in `base`, most significant first, with no leading zeros ("0" for zero).
pub open spec fn radix_digits(n: nat, base: nat) -> Seq<char>
    decreases n,
{
    if base < 2 || n < base {
        seq![digit_char(n)]
    } else {
        proof {
            assert(n / base < n) by (nonlinear_arith)
                requires
                    n >= base,
                    base >= 2,
            ;
        }
        radix_digits(n / base, base).push(digit_char(n % base))
    }
}

/// Decimal digits of `n`, as `{}` prints an unsigned integer.
pub open spec fn decimal(n: nat) -> Seq<char> {
    radix_digits(n, 10)
}

/// Lower-case hexadecimal digits of `n`, as `{:x}` prints an unsigned integer.
pub open spec fn hex(n: nat) -> Seq<char> {
    radix_digits(n, 16)
}

/// `s` preceded by enough copies of `fill` to make it `width` characters long.
pub open spec fn pad_left(s: Seq<char>, width: nat, fill: char) -> Seq<char> {
    if s.len() < width {
        Seq::new((width - s.len()) as nat, |_i: int| fill) + s
    } else {
        s
    }
}

/// `s` followed by enough copies of `fill` to make it `width` characters long.
pub open spec fn pad_right(s: Seq<char>, width: nat, fill: char) -> Seq<char> {
    if s.len() < width {
        s + Seq::new((width - s.len()) as nat, |_i: int| fill)
    } else {
        s
    }
}

/// The digit character for `d`.
pub fn digit_to_char(d: u64) -> (c: char)
    requires
        d < 16,
    ensures
        c == digit_char(d as nat),
{
    if d < 10 {
        let c = (('0' as u8) + (d as u8)) as char;
        c
    } else {
        let c = (('a' as u8) + (d as u8) - 10) as char;
        c
    }
}

/// The digits of `n` in `base`.
pub fn radix_string(n: u64, base: u64) -> (r: Vec<char>)
    requires
        2 <= base <= 16,
    ensures
        r@ == radix_digits(n as nat, base as nat),
{
    let mut rest = n;
    let mut out: Vec<char> = Vec::new();
    while rest >= base
        invariant
            2 <= base <= 16,
            radix_digits(n as nat, base as nat) == radix_digits(rest as nat, base as nat) + out@,
        decreases rest,
    {
        let c = digit_to_char(rest % base);
        let ghost before = out@;
        out.insert(0, c);
        proof {
            assert(out@ =~= seq![c] + before);
            assert(radix_digits(rest as nat, base as nat) == radix_digits(
                (rest / base) as nat,
                base as nat,
            ).push(c));
            assert(radix_digits((rest / base) as nat, base as nat).push(c) + before
                =~= radix_digits((rest / base) as nat, base as nat) + out@);
        }
        rest = rest / base;
    }
    let c = digit_to_char(rest);
    let ghost before = out@;
    out.insert(0, c);
    proof {
        assert(out@ =~= seq![c] + before);
        assert(radix_digits(rest as nat, base as nat) == seq![c]);
    }
    out
}

/// `s` padded on the left with `fill` up to `width` characters.
pub fn pad_left_chars(s: &Vec<char>, width: usize, fill: char) -> (r: Vec<char>)
    ensures
        r@ == pad_left(s@, width as nat, fill),
{
    let mut r: Vec<char> = Vec::new();
    if s.len() < width {
        let k = width - s.len();
        for i in 0..k
            invariant
                r@ == Seq::new(i as nat, |_i: int| fill),
        {
            r.push(fill);
            proof {
                assert(r@ =~= Seq::new((i + 1) as nat, |_i: int| fill));
            }
        }
    }
    for i in 0..s.len()
        invariant
            r@ == (if s@.len() < width {
                Seq::new((width - s@.len()) as nat, |_i: int| fill)
            } else {
                Seq::empty()
            }) + s@.take(i as int),
    {
        r.push(s[i]);
        proof {
            assert(s@.take(i as int + 1) =~= s@.take(i as int).push(s@[i as int]));
        }
    }
    proof {
        assert(s@.take(s@.len() as int) =~= s@);
    }
    r
}

/// `s` padded on the right with `fill` up to `width` characters.
pub fn pad_right_chars(s: &Vec<char>, width: usize, fill: char) -> (r: Vec<char>)
    ensures
        r@ == pad_right(s@, width as nat, fill),
{
    let mut r: Vec<char> = s.clone();
    if s.len() < width {
        let k = width - s.len();
        for i in 0..k
            invariant
                r@ == s@ + Seq::new(i as nat, |_i: int| fill),
        {
            r.push(fill);
            proof {
                assert(r@ =~= s@ + Seq::new((i + 1) as nat, |_i: int| fill));
            }
        }
    } else {
        proof {
            assert(r@ =~= s@);
        }
    }
    r
}

/// How many low bits `n as f64` drops: the number of halvings that bring `n` below 2^53.
pub open spec fn f64_shift(n: nat) -> nat
    decreases n,
{
    if n < 0x20_0000_0000_0000 {
        0
    } else {
        1 + f64_shift(n / 2)
    }
}

/// The value of `n as f64`: `n` rounded to 53 significant bits, ties to an even significand.
pub open spec fn f64_of(n: nat) -> nat {
    let s = f64_shift(n);
    if s == 0 {
        n
    } else {
        let u = pow2(s);
        let q = n / u;
        let r = n % u;
        if 2 * r > u || (2 * r == u && q % 2 == 1) {
            (q + 1) * u
        } else {
            q * u
        }
    }
}

/// `m * 10 / unit` rounded to the nearest integer, ties to even.
pub open spec fn round_tenths(m: nat, unit: nat) -> nat {
    let t = m * 10;
    let q = t / unit;
    let r = t % unit;
    if 2 * r > unit || (2 * r == unit && q % 2 == 1) {
        q + 1
    } else {
        q
    }
}

/// `m / unit` written with one decimal, as `{:.1}` writes an `f64` whose value is exactly that
/// quotient: the exact value rounded half to even at the first decimal.
pub open spec fn one_decimal(m: nat, unit: nat) -> Seq<char> {
    let t = round_tenths(m, unit);
    decimal(t / 10) + seq!['.', digit_char(t % 10)]
}

/// The value `n as f64` holds, as an exact integer.
pub fn f64_value(n: u64) -> (m: u128)
    ensures
        m == f64_of(n as nat),
        m <= 0x1_0000_0000_0000_0000,
{
    let mut q: u64 = n;
    let mut u: u128 = 1;
    let ghost mut s: nat = 0;
    proof {
        vstd::arithmetic::power2::lemma2_to64();
    }
    while q >= 0x20_0000_0000_0000
        invariant
            u == pow2(s),
            u >= 1,
            q as nat == n as nat / (u as nat),
            f64_shift(n as nat) == s + f64_shift(q as nat),
            u <= n as nat + 1,
        decreases q,
    {
        proof {
            lemma_div_denominator(n as int, u as int, 2);
            lemma_pow2_unfold(s + 1);
            lemma_fundamental_div_mod(n as int, u as int);
            assert(u * 2 <= n) by (nonlinear_arith)
                requires
                    q as nat == n as nat / (u as nat),
                    q >= 2,
                    u >= 1,
                    n >= u * (n as nat / (u as nat)),
            ;
        }
        q = q / 2;
        u = u * 2;
        proof {
            s = s + 1;
        }
    }
    if u == 1 {
        proof {
            assert(s == 0) by {
                if s > 0 {
                    lemma_pow2_unfold(s);
                    lemma_pow2_pos((s - 1) as nat);
                }
            }
        }
        return n as u128;
    }
    proof {
        assert(s > 0);
        lemma_fundamental_div_mod(n as int, u as int);
        assert(q * u <= n) by (nonlinear_arith)
            requires
                q as nat == n as nat / (u as nat),
                u >= 1,
                n == u * (n as nat / (u as nat)) + (n as nat % (u as nat)),
                n as nat % (u as nat) >= 0,
        ;
    }
    let r: u128 = n as u128 - (q as u128) * u;
    let half: u128 = u / 2;
    proof {
        lemma_pow2_unfold(s);
        assert(r == n as nat % (u as nat));
        assert(2 * half == u);
        assert((q as u128 + 1) * u <= 2 * 0x1_0000_0000_0000_0000) by (nonlinear_arith)
            requires
                q * u <= n,
                n < 0x1_0000_0000_0000_0000,
                u <= n + 1,
        ;
    }
    if r > half || (r == half && q % 2 == 1) {
        let m = (q as u128 + 1) * u;
        proof {
            lemma_fundamental_div_mod(n as int, u as int);
            assert(m == n - r + u) by (nonlinear_arith)
                requires
                    m == (q + 1) * u,
                    q * u + r == n,
            ;
            assert(m <= 0x1_0000_0000_0000_0000) by {
                // q * u + u is the next multiple of u above n; u divides 2^64
                assert(n as nat + (u - r) <= 0x1_0000_0000_0000_0000) by {
                    lemma_multiple_below_pow2_64(n as nat, u as nat, s);
                }
            }
        }
        m
    } else {
        q as u128 * u
    }
}

proof fn lemma_multiple_below_pow2_64(n: nat, u: nat, s: nat)
    requires
        u == pow2(s),
        u >= 2,
        u <= n + 1,
        n < 0x1_0000_0000_0000_0000,
    ensures
        n + (u - n % u) <= 0x1_0000_0000_0000_0000,
{
    vstd::arithmetic::power2::lemma2_to64();
    vstd::arithmetic::power2::lemma2_to64_rest();
    assert(s <= 64) by {
        if s > 64 {
            vstd::arithmetic::power2::lemma_pow2_strictly_increases(64, s);
        }
    }
    vstd::arithmetic::power2::lemma_pow2_adds(s, (64 - s) as nat);
    let c = pow2((64 - s) as nat);
    assert(u * c == 0x1_0000_0000_0000_0000);
    lemma_fundamental_div_mod(n as int, u as int);
    let q = n / u;
    if q >= c {
        assert(u * q >= u * c) by (nonlinear_arith)
            requires
                q >= c,
                u >= 2,
        ;
        assert(false);
    }
    assert(u * q + u <= u * c) by (nonlinear_arith)
        requires
            q + 1 <= c,
            u >= 2,
    ;
}

/// `m / unit` written with one decimal place.
pub fn one_decimal_chars(m: u128, unit: u128) -> (r: Vec<char>)
    requires
        m <= 0x1_0000_0000_0000_0000,
        1024 <= unit <= 0x100_0000_0000,
    ensures
        r@ == one_decimal(m as nat, unit as nat),
{
    let t = m * 10;
    let q = t / unit;
    let rem = t % unit;
    let half = unit / 2;
    proof {
        assert(q <= 0x1_0000_0000_0000_0000) by (nonlinear_arith)
            requires
                q == t / unit,
                t <= 10 * 0x1_0000_0000_0000_0000,
                unit >= 1024,
        ;
    }
    let rounded: u128 = if 2 * rem > unit || (2 * rem == unit && q % 2 == 1) {
        q + 1
    } else {
        q
    };
    let whole = (rounded / 10) as u64;
    let frac = (rounded % 10) as u64;
    let mut r = radix_string(whole, 10);
    r.push('.');
    let c = digit_to_char(frac);
    r.push(c);
    proof {
        assert(r@ =~= decimal((rounded / 10) as nat) + seq!['.', digit_char((rounded % 10) as nat)]);
    }
    r
}

proof fn lemma_digit_char_value(d: nat, base: nat)
    requires
        2 <= base <= 16,
        d < base,
    ensures
        digit_of(digit_char(d), base) == Some(d),
        digit_char(d) != '+',
{
}

/// The digits of `n` spell `n` back.
pub proof fn lemma_radix_digits_value(n: nat, base: nat)
    requires
        2 <= base <= 16,
    ensures
        all_digits(radix_digits(n, base), base),
        digits_value(radix_digits(n, base), base) == n,
        radix_digits(n, base).len() > 0,
        radix_digits(n, base)[0] != '+',
    decreases n,
{
    let s = radix_digits(n, base);
    if n < base {
        lemma_digit_char_value(n, base);
        assert(s.drop_last() =~= Seq::<char>::empty());
        assert(digits_value(s.drop_last(), base) == 0);
    } else {
        assert(n / base < n) by (nonlinear_arith)
            requires
                n >= base,
                base >= 2,
        ;
        lemma_radix_digits_value(n / base, base);
        let t = radix_digits(n / base, base);
        let d = n % base;
        lemma_digit_char_value(d, base);
        assert(s == t.push(digit_char(d)));
        assert(s.drop_last() =~= t);
        assert(digits_value(s, base) == (n / base) * base + d);
        assert((n / base) * base + n % base == n) by (nonlinear_arith)
            requires
                base >= 2,
        ;
        assert forall|i: int| 0 <= i < s.len() implies (#[trigger] digit_of(s[i], base)) is Some by {
            if i < t.len() {
                assert(s[i] == t[i]);
            }
        }
        assert(s[0] == t[0]);
    }
}

/// Reading back the digits of a number gives the number: `from_str_radix` in `base` accepts
/// what `{}` or `{:x}` prints, for every value the target type holds.
pub proof fn radix_round_trip(n: nat, base: nat, max: nat)
    requires
        2 <= base <= 16,
        n <= max,
    ensures
        parse_uint_spec(radix_digits(n, base), base, max) == Some(n),
{
    lemma_radix_digits_value(n, base);
}

} // verus!
