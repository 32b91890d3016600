//! Byte counts rendered as gigabyte text.
//!
//! The texts are those of Rust's fixed-precision float formatting of
//! `bytes as f64 / 2^30`, reproduced exactly with integers: the conversion of a
//! `u64` to `f64` rounds to 53 significant bits (ties to even), the division by
//! `2^30` is exact, and the decimal rounding to the requested digits is the
//! exact value rounded half to even.

use vstd::prelude::*;

verus! {

/// Bytes in one gigabyte (2^30).
pub const GIB: u128 = 0x4000_0000;

/// Below this bound (2^53) every integer is exactly representable as an `f64`.
pub const F64_EXACT_LIMIT: u64 = 0x20_0000_0000_0000;

/// `2` raised to `e`.
pub open spec fn two_pow(e: nat) -> nat
    decreases e,
{
    if e == 0 {
        1
    } else {
        2 * two_pow((e - 1) as nat)
    }
}

/// `a / d` rounded to the nearest integer, ties to the even neighbour.
pub open spec fn div_round_even(a: nat, d: nat) -> nat {
    let q: nat = a / d;
    let r: nat = a % d;
    if 2 * r > d || (2 * r == d && q % 2 == 1) {
        q + 1
    } else {
        q
    }
}

/// How many low bits of `b` an `f64` cannot hold (0 below 2^53).
pub open spec fn f64_shift(b: nat) -> nat
    decreases b,
{
    if b < F64_EXACT_LIMIT {
        0
    } else {
        1 + f64_shift(b / 2)
    }
}

/// The value of `b as f64`: `b` rounded to 53 significant bits, ties to even.
pub open spec fn u64_as_f64(b: nat) -> nat {
    let p: nat = two_pow(f64_shift(b));
    div_round_even(b, p) * p
}

/// The decimal digit `d` (for `d < 10`).
pub open spec fn digit_char(d: nat) -> char {
    if d == 0 {
        '0'
    } else if d == 1 {
        '1'
    } else if d == 2 {
        '2'
    } else if d == 3 {
        '3'
    } else if d == 4 {
        '4'
    } else if d == 5 {
        '5'
    } else if d == 6 {
        '6'
    } else if d == 7 {
        '7'
    } else if d == 8 {
        '8'
    } else {
        '9'
    }
}

/// The decimal notation of `n`, without leading zeros.
pub open spec fn decimal(n: nat) -> Seq<char>
    decreases n,
{
    if n < 10 {
        seq![digit_char(n)]
    } else {
        decimal(n / 10).push(digit_char(n % 10))
    }
}

fn digit_text(d: u128) -> (s: &'static str)
    requires
        d < 10,
    ensures
        s@ == seq![digit_char(d as nat)],
{
    if d == 0 {
        proof { reveal_strlit("0"); }
        "0"
    } else if d == 1 {
        proof { reveal_strlit("1"); }
        "1"
    } else if d == 2 {
        proof { reveal_strlit("2"); }
        "2"
    } else if d == 3 {
        proof { reveal_strlit("3"); }
        "3"
    } else if d == 4 {
        proof { reveal_strlit("4"); }
        "4"
    } else if d == 5 {
        proof { reveal_strlit("5"); }
        "5"
    } else if d == 6 {
        proof { reveal_strlit("6"); }
        "6"
    } else if d == 7 {
        proof { reveal_strlit("7"); }
        "7"
    } else if d == 8 {
        proof { reveal_strlit("8"); }
        "8"
    } else {
        proof { reveal_strlit("9"); }
        "9"
    }
}

/// Appends the decimal notation of `n` to `s`.
pub fn push_decimal(s: &mut String, n: u128)
    ensures
        final(s)@ == old(s)@ + decimal(n as nat),
    decreases n,
{
    if n >= 10 {
        push_decimal(s, n / 10);
    }
    s.append(digit_text(n % 10));
    assert(s@ =~= old(s)@ + decimal(n as nat));
}


/// `bytes as f64`, exactly, as an integer (it may reach 2^64).
pub fn u64_to_f64_exact(b: u64) -> (r: u128)
    ensures
        r == u64_as_f64(b as nat),
        r <= 2 * (b as nat),
{
    let mut t: u64 = b;
    let mut p: u128 = 1;
    let ghost mut e: nat = 0;
    while t >= F64_EXACT_LIMIT
        invariant
            t == (b as nat) / (p as nat),
            p == two_pow(e),
            p >= 1,
            p * t <= b,
            f64_shift(b as nat) == e + f64_shift(t as nat),
        decreases t,
    {
        proof {
            vstd::arithmetic::div_mod::lemma_div_denominator(b as int, p as int, 2);
            assert(p * t >= p) by (nonlinear_arith)
                requires
                    p >= 1,
                    t >= 1,
            ;
            assert((2 * p) * (t / 2) <= p * t) by (nonlinear_arith)
                requires
                    p >= 1,
            ;
        }
        t = t / 2;
        p = 2 * p;
        proof {
            e = e + 1;
        }
    }
    let q: u128 = t as u128;
    let ghost bi: int = b as int;
    let ghost pi: int = p as int;
    proof {
        vstd::arithmetic::div_mod::lemma_fundamental_div_mod(bi, pi);
        assert(q * p <= b) by (nonlinear_arith)
            requires
                p * t <= b,
                q == t,
        ;
    }
    let r: u128 = b as u128 - q * p;
    assert(r == bi % pi) by (nonlinear_arith)
        requires
            bi == pi * (bi / pi) + bi % pi,
            q == bi / pi,
            r == bi - q * pi,
    ;
    let rounded: u128 = if 2 * r > p || (2 * r == p && q % 2 == 1) {
        q + 1
    } else {
        q
    };
    assert(rounded * p <= 2 * b) by (nonlinear_arith)
        requires
            rounded <= q + 1,
            q * p <= b,
            p * t <= b,
            t == q,
            rounded == q || q >= 1 || 2 * r >= p,
            r == b - q * p,
    ;
    rounded * p
}

/// Hundredths of a gigabyte shown for `bytes` by `{:.2}` of `bytes as f64 / 2^30`.
pub open spec fn gb_hundredths(bytes: nat) -> nat {
    div_round_even(u64_as_f64(bytes) * 100, GIB as nat)
}

/// Tenths of a gigabyte shown for `bytes` by `{:.1}` of `bytes as f64 / 2^30`.
pub open spec fn gb_tenths(bytes: nat) -> nat {
    div_round_even(u64_as_f64(bytes) * 10, GIB as nat)
}

/// The text " GB".
pub open spec fn gb_suffix() -> Seq<char> {
    seq![' ', 'G', 'B']
}

/// "x.xx GB": the gigabytes in `bytes`, two decimals.
pub open spec fn gb_text(bytes: nat) -> Seq<char> {
    let h: nat = gb_hundredths(bytes);
    decimal(h / 100) + seq!['.', digit_char((h % 100) / 10), digit_char(h % 10)] + gb_suffix()
}

/// "x.x GB": the gigabytes in `bytes`, one decimal.
pub open spec fn gb_text_tenths(bytes: nat) -> Seq<char> {
    let t: nat = gb_tenths(bytes);
    decimal(t / 10) + seq!['.', digit_char(t % 10)] + gb_suffix()
}

fn div_round_even_exec(a: u128, d: u128) -> (q: u128)
    requires
        d > 0,
        a < u128::MAX / 2,
        d < u128::MAX / 2,
    ensures
        q == div_round_even(a as nat, d as nat),
{
    let q: u128 = a / d;
    let r: u128 = a % d;
    if 2 * r > d || (2 * r == d && q % 2 == 1) {
        q + 1
    } else {
        q
    }
}

/// Byte count formatted as "x.xx GB" (two decimals, gigabytes of 2^30 bytes).
pub fn format_gb(bytes: u64) -> (s: String)
    ensures
        s@ == gb_text(bytes as nat),
{
    let f: u128 = u64_to_f64_exact(bytes);
    let h: u128 = div_round_even_exec(f * 100, GIB);
    let mut s = String::new();
    push_decimal(&mut s, h / 100);
    s.append(".");
    s.append(digit_text((h % 100) / 10));
    s.append(digit_text(h % 10));
    s.append(" GB");
    proof {
        reveal_strlit(".");
        reveal_strlit(" GB");
    }
    assert(s@ =~= gb_text(bytes as nat));
    s
}

/// Zero bytes are zero as a float and show zero hundredths and tenths.
proof fn lemma_zero_bytes()
    ensures
        u64_as_f64(0) == 0,
        gb_hundredths(0) == 0,
        gb_tenths(0) == 0,
{
    assert(f64_shift(0) == 0);
    assert(two_pow(0) == 1);
    let p: nat = two_pow(f64_shift(0));
    assert(p == 1);
    assert(div_round_even(0, p) == 0);
    assert(div_round_even(0, p) * p == 0) by (nonlinear_arith)
        requires
            div_round_even(0, p) == 0,
    ;
    assert(u64_as_f64(0) == div_round_even(0, p) * p);
    assert(div_round_even(0, GIB as nat) == 0);
}

/// Byte count formatted as "x.x GB" (one decimal); zero is "0.0 GB".
pub fn format_gb_tenths(bytes: u64) -> (s: String)
    ensures
        s@ == gb_text_tenths(bytes as nat),
{
    if bytes == 0 {
        proof {
            reveal_strlit("0.0 GB");
            lemma_zero_bytes();
            assert(gb_tenths(0) == 0);
            assert(decimal(0) == seq!['0']);
            assert(gb_text_tenths(0) =~= "0.0 GB"@);
        }
        return String::from_str("0.0 GB");
    }
    let f: u128 = u64_to_f64_exact(bytes);
    let t: u128 = div_round_even_exec(f * 10, GIB);
    let mut s = String::new();
    push_decimal(&mut s, t / 10);
    s.append(".");
    s.append(digit_text(t % 10));
    s.append(" GB");
    proof {
        reveal_strlit(".");
        reveal_strlit(" GB");
    }
    assert(s@ =~= gb_text_tenths(bytes as nat));
    s
}


proof fn lemma_two_pow_add(a: nat, b: nat)
    ensures
        two_pow(a + b) == two_pow(a) * two_pow(b),
    decreases a,
{
    if a > 0 {
        lemma_two_pow_add((a - 1) as nat, b);
        assert(two_pow(a + b) == 2 * two_pow((a - 1 + b) as nat));
        assert(two_pow(a) * two_pow(b) == 2 * (two_pow((a - 1) as nat) * two_pow(b))) by (nonlinear_arith)
            requires
                two_pow(a) == 2 * two_pow((a - 1) as nat),
        ;
    } else {
        assert(two_pow(0) == 1);
        assert(a + b == b);
    }
}

proof fn lemma_two_pow_pos(a: nat)
    ensures
        two_pow(a) >= 1,
    decreases a,
{
    if a > 0 {
        lemma_two_pow_pos((a - 1) as nat);
    }
}

proof fn lemma_shift_bound(b: nat, n: nat)
    requires
        b < F64_EXACT_LIMIT * two_pow(n),
    ensures
        f64_shift(b) <= n,
    decreases n,
{
    if b >= F64_EXACT_LIMIT {
        assert(n > 0);
        let m: nat = (n - 1) as nat;
        assert(F64_EXACT_LIMIT * two_pow(n) == 2 * (F64_EXACT_LIMIT * two_pow(m))) by (nonlinear_arith)
            requires
                two_pow(n) == 2 * two_pow(m),
        ;
        lemma_shift_bound(b / 2, m);
    }
}

/// Whole gigabytes read exactly: `k` GiB of bytes show as "k.00 GB".
pub proof fn lemma_whole_gigabytes(k: nat)
    requires
        k * (GIB as nat) <= u64::MAX,
    ensures
        gb_text(k * (GIB as nat)) == decimal(k) + seq!['.', '0', '0'] + gb_suffix(),
{
    let b: nat = k * (GIB as nat);
    assert(two_pow(11) == 2048) by {
        reveal_with_fuel(two_pow, 12);
    }
    assert(two_pow(30) == GIB) by {
        reveal_with_fuel(two_pow, 31);
    }
    lemma_shift_bound(b, 11);
    let e: nat = f64_shift(b);
    let p: nat = two_pow(e);
    let c: nat = two_pow((30 - e) as nat);
    lemma_two_pow_add(e, (30 - e) as nat);
    lemma_two_pow_pos(e);
    assert(p * c == GIB);
    assert(b == (k * c) * p && b == p * (k * c)) by (nonlinear_arith)
        requires
            b == k * (GIB as nat),
            p * c == GIB,
    ;
    vstd::arithmetic::div_mod::lemma_div_multiples_vanish((k * c) as int, p as int);
    vstd::arithmetic::div_mod::lemma_mod_multiples_basic((k * c) as int, p as int);
    assert(div_round_even(b, p) == k * c);
    assert(u64_as_f64(b) == b);
    let a: nat = b * 100;
    assert(a == (100 * k) * (GIB as nat) && a == (GIB as nat) * (100 * k)) by (nonlinear_arith)
        requires
            a == b * 100,
            b == k * (GIB as nat),
    ;
    vstd::arithmetic::div_mod::lemma_div_multiples_vanish((100 * k) as int, GIB as int);
    vstd::arithmetic::div_mod::lemma_mod_multiples_basic((100 * k) as int, GIB as int);
    let h: nat = gb_hundredths(b);
    assert(h == 100 * k);
    assert(h / 100 == k);
    assert(h % 100 == 0);
    assert(digit_char(0) == '0');
    assert(gb_text(b) =~= decimal(k) + seq!['.', '0', '0'] + gb_suffix());
}


proof fn lemma_round_bounds(a: nat, d: nat)
    requires
        d > 0,
    ensures
        2 * div_round_even(a, d) * d <= 2 * a + d,
        2 * a + d <= 2 * div_round_even(a, d) * d + 2 * d,
{
    let q: nat = a / d;
    let r: nat = a % d;
    vstd::arithmetic::div_mod::lemma_fundamental_div_mod(a as int, d as int);
    assert(a == d * q + r);
    assert(0 <= r < d);
    let k: nat = div_round_even(a, d);
    assert(k == q || k == q + 1);
    assert(k == q + 1 ==> 2 * r >= d);
    assert(k == q ==> 2 * r <= d);
    assert(2 * k * d <= 2 * a + d && 2 * a + d <= 2 * k * d + 2 * d) by (nonlinear_arith)
        requires
            a == d * q + r,
            0 <= r < d,
            k == q || k == q + 1,
            k == q + 1 ==> 2 * r >= d,
            k == q ==> 2 * r <= d,
    ;
}

/// Rounding to the nearest multiple keeps the order of the numerators.
proof fn lemma_round_monotone(a: nat, b: nat, d: nat)
    requires
        d > 0,
        a <= b,
    ensures
        div_round_even(a, d) <= div_round_even(b, d),
{
    if a < b {
        lemma_round_bounds(a, d);
        lemma_round_bounds(b, d);
        let ka: nat = div_round_even(a, d);
        let kb: nat = div_round_even(b, d);
        assert(ka <= kb) by (nonlinear_arith)
            requires
                2 * ka * d <= 2 * a + d,
                2 * a + d <= 2 * ka * d + 2 * d,
                2 * kb * d <= 2 * b + d,
                2 * b + d <= 2 * kb * d + 2 * d,
                a < b,
                d > 0,
        ;
    }
}

proof fn lemma_shift_monotone(a: nat, b: nat)
    requires
        a <= b,
    ensures
        f64_shift(a) <= f64_shift(b),
    decreases a,
{
    if a >= F64_EXACT_LIMIT {
        lemma_shift_monotone(a / 2, b / 2);
    }
}

proof fn lemma_shift_range(b: nat)
    ensures
        b < F64_EXACT_LIMIT * two_pow(f64_shift(b)),
        f64_shift(b) > 0 ==> F64_EXACT_LIMIT * two_pow((f64_shift(b) - 1) as nat) <= b,
    decreases b,
{
    if b >= F64_EXACT_LIMIT {
        let h: nat = b / 2;
        lemma_shift_range(h);
        let e: nat = f64_shift(h);
        assert(f64_shift(b) == e + 1);
        assert(two_pow(e + 1) == 2 * two_pow(e));
        let t: nat = two_pow(e);
        let l: nat = F64_EXACT_LIMIT as nat;
        assert(b < l * (2 * t)) by (nonlinear_arith)
            requires
                h < l * t,
                h == b / 2,
        ;
        if e > 0 {
            assert(two_pow(e) == 2 * two_pow((e - 1) as nat));
            assert(l * t <= b) by (nonlinear_arith)
                requires
                    l * two_pow((e - 1) as nat) <= h,
                    t == 2 * two_pow((e - 1) as nat),
                    h == b / 2,
            ;
        } else {
            assert(t == 1);
        }
    }
}

/// `b as f64` never decreases as `b` grows.
proof fn lemma_u64_as_f64_monotone(a: nat, b: nat)
    requires
        a <= b,
    ensures
        u64_as_f64(a) <= u64_as_f64(b),
{
    lemma_shift_monotone(a, b);
    let ea: nat = f64_shift(a);
    let eb: nat = f64_shift(b);
    let pa: nat = two_pow(ea);
    let pb: nat = two_pow(eb);
    lemma_two_pow_pos(ea);
    lemma_two_pow_pos(eb);
    let l: nat = F64_EXACT_LIMIT as nat;
    if ea == eb {
        lemma_round_monotone(a, b, pa);
        assert(div_round_even(a, pa) * pa <= div_round_even(b, pa) * pa) by (nonlinear_arith)
            requires
                div_round_even(a, pa) <= div_round_even(b, pa),
        ;
    } else {
        // a rounds to at most l * pa; b rounds to at least l * pa
        lemma_shift_range(a);
        lemma_shift_range(b);
        lemma_round_bounds(a, pa);
        lemma_round_bounds(b, pb);
        let ka: nat = div_round_even(a, pa);
        let kb: nat = div_round_even(b, pb);
        let m: nat = (eb - 1) as nat;
        lemma_two_pow_add(ea, (m - ea) as nat);
        lemma_two_pow_pos((m - ea) as nat);
        assert(two_pow(m) >= pa) by (nonlinear_arith)
            requires
                two_pow(m) == pa * two_pow((m - ea) as nat),
                two_pow((m - ea) as nat) >= 1,
        ;
        assert(pb == 2 * two_pow(m));
        assert(ka * pa <= l * pa) by (nonlinear_arith)
            requires
                a < l * pa,
                2 * ka * pa <= 2 * a + pa,
                pa >= 1,
        ;
        let qb: nat = b / pb;
        vstd::arithmetic::div_mod::lemma_fundamental_div_mod(b as int, pb as int);
        assert(kb >= qb);
        let t: nat = two_pow(m);
        assert(0x10_0000_0000_0000 <= qb) by (nonlinear_arith)
            requires
                l * t <= b,
                b == pb * qb + b % pb,
                b % pb < pb,
                pb == 2 * t,
                t >= 1,
                l == 0x20_0000_0000_0000,
        ;
        assert(l * pa <= kb * pb) by (nonlinear_arith)
            requires
                0x10_0000_0000_0000 <= qb,
                qb <= kb,
                pb == 2 * t,
                t >= pa,
                l == 0x20_0000_0000_0000,
        ;
    }
}

/// More bytes never show fewer gigabytes: the hundredths shown by
/// `format_gb` grow with the byte count.
pub proof fn lemma_gb_hundredths_monotone(a: nat, b: nat)
    requires
        a <= b <= u64::MAX,
    ensures
        gb_hundredths(a) <= gb_hundredths(b),
{
    lemma_u64_as_f64_monotone(a, b);
    lemma_round_monotone(u64_as_f64(a) * 100, u64_as_f64(b) * 100, GIB as nat);
}


/// More bytes never show fewer gigabytes with one decimal either.
pub proof fn lemma_gb_tenths_monotone(a: nat, b: nat)
    requires
        a <= b <= u64::MAX,
    ensures
        gb_tenths(a) <= gb_tenths(b),
{
    lemma_u64_as_f64_monotone(a, b);
    lemma_round_monotone(u64_as_f64(a) * 10, u64_as_f64(b) * 10, GIB as nat);
}


/// The number a string of decimal digits denotes.
pub open spec fn digits_value(s: Seq<char>) -> int
    decreases s.len(),
{
    if s.len() == 0 {
        0
    } else {
        10 * digits_value(s.drop_last()) + (s.last() as int - '0' as int)
    }
}

/// Whether every character is a decimal digit.
pub open spec fn all_digits(s: Seq<char>) -> bool {
    forall|i: int| 0 <= i < s.len() ==> '0' <= #[trigger] s[i] <= '9'
}

/// The digit character for `d` has code `'0' + d`.
pub proof fn lemma_digit_char_code(d: nat)
    requires
        d < 10,
    ensures
        digit_char(d) as int == '0' as int + d,
        '0' <= digit_char(d) <= '9',
{
}

/// `decimal(n)` is the usual notation of `n`: digits only, no leading zero,
/// and it reads back as `n`.
pub proof fn lemma_decimal_reads_back(n: nat)
    ensures
        decimal(n).len() >= 1,
        all_digits(decimal(n)),
        digits_value(decimal(n)) == n,
        n > 0 ==> decimal(n)[0] != '0',
    decreases n,
{
    if n < 10 {
        lemma_digit_char_code(n);
        assert(seq![digit_char(n)].drop_last() =~= Seq::<char>::empty());
        assert(digits_value(Seq::<char>::empty()) == 0);
        assert(digits_value(decimal(n)) == 10 * digits_value(Seq::<char>::empty()) + (digit_char(n) as int - '0' as int));
    } else {
        lemma_decimal_reads_back(n / 10);
        lemma_digit_char_code(n % 10);
        assert(decimal(n).drop_last() =~= decimal(n / 10));
        assert(decimal(n)[0] == decimal(n / 10)[0]);
        assert(decimal(n).last() == digit_char(n % 10));
        assert(n == 10 * (n / 10) + n % 10);
        assert(digits_value(decimal(n)) == 10 * digits_value(decimal(n / 10)) + (digit_char(n % 10) as int - '0' as int));
    }
}


/// `div_round_even(a, d)` is the nearest integer to `a / d`, and at an exact
/// tie it is the even one.
pub proof fn lemma_round_nearest_even(a: nat, d: nat)
    requires
        d > 0,
    ensures
        2 * div_round_even(a, d) * d <= 2 * a + d,
        2 * a <= 2 * div_round_even(a, d) * d + d,
        (2 * a == 2 * div_round_even(a, d) * d + d || 2 * a + d == 2 * div_round_even(a, d) * d)
            ==> div_round_even(a, d) % 2 == 0,
{
    lemma_round_bounds(a, d);
    let q: nat = a / d;
    let r: nat = a % d;
    vstd::arithmetic::div_mod::lemma_fundamental_div_mod(a as int, d as int);
    let k: nat = div_round_even(a, d);
    if 2 * a == 2 * k * d + d {
        if k == q + 1 {
            assert(false) by (nonlinear_arith)
                requires
                    2 * a == 2 * k * d + d,
                    k == q + 1,
                    a == d * q + r,
                    r < d,
            ;
        }
        assert(2 * r == d) by (nonlinear_arith)
            requires
                2 * a == 2 * k * d + d,
                k == q,
                a == d * q + r,
        ;
    }
    if 2 * a + d == 2 * k * d {
        if k == q {
            assert(false) by (nonlinear_arith)
                requires
                    2 * a + d == 2 * k * d,
                    k == q,
                    a == d * q + r,
                    d > 0,
            ;
        }
        assert(2 * r == d) by (nonlinear_arith)
            requires
                2 * a + d == 2 * k * d,
                k == q + 1,
                a == d * q + r,
        ;
    }
}

/// `b as f64` is `b` itself below 2^53, and otherwise within a relative
/// error of 2^-53 of it.
pub proof fn lemma_u64_as_f64_close(b: nat)
    ensures
        b < 0x20_0000_0000_0000 ==> u64_as_f64(b) == b,
        0x20_0000_0000_0000 * u64_as_f64(b) <= 0x20_0000_0000_0000 * b + b,
        0x20_0000_0000_0000 * b <= 0x20_0000_0000_0000 * u64_as_f64(b) + b,
{
    let e: nat = f64_shift(b);
    let p: nat = two_pow(e);
    lemma_two_pow_pos(e);
    lemma_round_bounds(b, p);
    lemma_shift_range(b);
    let k: nat = div_round_even(b, p);
    let l: nat = 0x20_0000_0000_0000;
    if e == 0 {
        assert(p == 1);
        vstd::arithmetic::div_mod::lemma_fundamental_div_mod(b as int, 1);
        assert(b / 1 == b && b % 1 == 0);
        assert(k == b);
        assert(k * p == b);
    } else {
        let h: nat = two_pow((e - 1) as nat);
        assert(p == 2 * h);
        assert(l * (k * p) <= l * b + b && l * b <= l * (k * p) + b) by (nonlinear_arith)
            requires
                2 * k * p <= 2 * b + p,
                2 * b + p <= 2 * k * p + 2 * p,
                l * h <= b,
                p == 2 * h,
        ;
        assert(b >= l);
    }
}

/// The hundredths shown for `b` are the nearest to `100 * (b as f64) / 2^30`
/// (ties to even); below 2^53 bytes that is `100 * b / 2^30` exactly.
pub proof fn lemma_hundredths_nearest(b: nat)
    ensures
        2 * gb_hundredths(b) * 0x4000_0000 <= 200 * u64_as_f64(b) + 0x4000_0000,
        200 * u64_as_f64(b) <= 2 * gb_hundredths(b) * 0x4000_0000 + 0x4000_0000,
        b < 0x20_0000_0000_0000 ==> 2 * gb_hundredths(b) * 0x4000_0000 <= 200 * b + 0x4000_0000
            && 200 * b <= 2 * gb_hundredths(b) * 0x4000_0000 + 0x4000_0000,
        (200 * u64_as_f64(b) == 2 * gb_hundredths(b) * 0x4000_0000 + 0x4000_0000 || 200 * u64_as_f64(b)
            + 0x4000_0000 == 2 * gb_hundredths(b) * 0x4000_0000) ==> gb_hundredths(b) % 2 == 0,
{
    lemma_round_nearest_even(u64_as_f64(b) * 100, GIB as nat);
    lemma_u64_as_f64_close(b);
}

/// The tenths shown for `b` are the nearest to `10 * (b as f64) / 2^30`
/// (ties to even); below 2^53 bytes that is `10 * b / 2^30` exactly.
pub proof fn lemma_tenths_nearest(b: nat)
    ensures
        2 * gb_tenths(b) * 0x4000_0000 <= 20 * u64_as_f64(b) + 0x4000_0000,
        20 * u64_as_f64(b) <= 2 * gb_tenths(b) * 0x4000_0000 + 0x4000_0000,
        b < 0x20_0000_0000_0000 ==> 2 * gb_tenths(b) * 0x4000_0000 <= 20 * b + 0x4000_0000
            && 20 * b <= 2 * gb_tenths(b) * 0x4000_0000 + 0x4000_0000,
        (20 * u64_as_f64(b) == 2 * gb_tenths(b) * 0x4000_0000 + 0x4000_0000 || 20 * u64_as_f64(b)
            + 0x4000_0000 == 2 * gb_tenths(b) * 0x4000_0000) ==> gb_tenths(b) % 2 == 0,
{
    lemma_round_nearest_even(u64_as_f64(b) * 10, GIB as nat);
    lemma_u64_as_f64_close(b);
}

/// "x.xx GB" reads back as the hundredths shown: digits, a point, exactly two
/// digits and " GB", whose number is `gb_hundredths(b) / 100`.
pub proof fn lemma_gb_text_reads_back(b: nat)
    ensures
        ({
            let t = gb_text(b);
            let n = t.len() as int;
            &&& n >= 7
            &&& t.subrange(n - 3, n) == seq![' ', 'G', 'B']
            &&& t[n - 6] == '.'
            &&& all_digits(t.subrange(0, n - 6))
            &&& all_digits(t.subrange(n - 5, n - 3))
            &&& digits_value(t.subrange(0, n - 6)) * 100 + digits_value(t.subrange(n - 5, n - 3))
                == gb_hundredths(b)
            &&& n - 6 >= 2 ==> t[0] != '0'
        }),
{
    let h: nat = gb_hundredths(b);
    let d: Seq<char> = decimal(h / 100);
    lemma_decimal_reads_back(h / 100);
    lemma_digit_char_code((h % 100) / 10);
    lemma_digit_char_code(h % 10);
    let t = gb_text(b);
    let n = t.len() as int;
    assert(t.subrange(0, n - 6) =~= d);
    if n - 6 >= 2 {
        assert(h / 100 >= 10);
        assert(t[0] == d[0]);
    }
    let f = t.subrange(n - 5, n - 3);
    assert(f =~= seq![digit_char((h % 100) / 10), digit_char(h % 10)]);
    assert(t.subrange(n - 3, n) =~= seq![' ', 'G', 'B']);
    assert(f.drop_last() =~= seq![digit_char((h % 100) / 10)]);
    assert(f.drop_last().drop_last() =~= Seq::<char>::empty());
    assert(digits_value(f.drop_last().drop_last()) == 0);
    assert(digits_value(f.drop_last()) == digit_char((h % 100) / 10) as int - '0' as int);
    assert(digits_value(f) == 10 * digits_value(f.drop_last()) + (digit_char(h % 10) as int - '0' as int));
    assert(digits_value(f) == h % 100);
}

/// "x.x GB" reads back as the tenths shown: digits, a point, exactly one
/// digit and " GB", whose number is `gb_tenths(b) / 10`.
pub proof fn lemma_gb_text_tenths_reads_back(b: nat)
    ensures
        ({
            let t = gb_text_tenths(b);
            let n = t.len() as int;
            &&& n >= 6
            &&& t.subrange(n - 3, n) == seq![' ', 'G', 'B']
            &&& t[n - 5] == '.'
            &&& all_digits(t.subrange(0, n - 5))
            &&& all_digits(t.subrange(n - 4, n - 3))
            &&& digits_value(t.subrange(0, n - 5)) * 10 + digits_value(t.subrange(n - 4, n - 3))
                == gb_tenths(b)
            &&& n - 5 >= 2 ==> t[0] != '0'
        }),
{
    let h: nat = gb_tenths(b);
    let d: Seq<char> = decimal(h / 10);
    lemma_decimal_reads_back(h / 10);
    lemma_digit_char_code(h % 10);
    let t = gb_text_tenths(b);
    let n = t.len() as int;
    assert(t.subrange(0, n - 5) =~= d);
    if n - 5 >= 2 {
        assert(h / 10 >= 10);
        assert(t[0] == d[0]);
    }
    let f = t.subrange(n - 4, n - 3);
    assert(f =~= seq![digit_char(h % 10)]);
    assert(t.subrange(n - 3, n) =~= seq![' ', 'G', 'B']);
    assert(f.drop_last() =~= Seq::<char>::empty());
    assert(digits_value(f.drop_last()) == 0);
    assert(digits_value(f) == h % 10);
}


/// Powers of two: `2^0 == 1` and each step doubles.
pub proof fn lemma_two_pow_steps(e: nat)
    ensures
        two_pow(0) == 1,
        two_pow(e + 1) == 2 * two_pow(e),
{
}

proof fn lemma_two_pow_grows(a: nat, b: nat)
    requires
        a <= b,
    ensures
        two_pow(a) <= two_pow(b),
{
    lemma_two_pow_add(a, (b - a) as nat);
    lemma_two_pow_pos((b - a) as nat);
    lemma_two_pow_pos(a);
    assert(two_pow(a) * two_pow((b - a) as nat) >= two_pow(a)) by (nonlinear_arith)
        requires
            two_pow((b - a) as nat) >= 1,
            two_pow(a) >= 1,
    ;
}

/// `b as f64` is `b` rounded to a multiple of `2^e` (ties to even), where
/// `2^e` is the spacing of 53-bit floats at `b`'s magnitude: `e == 0` below
/// 2^53, and `2^(52 + e) <= b < 2^(53 + e)` above.
pub proof fn lemma_u64_as_f64_by_magnitude(b: nat, e: nat)
    requires
        b < 0x20_0000_0000_0000 * two_pow(e),
        e > 0 ==> 0x20_0000_0000_0000 * two_pow((e - 1) as nat) <= b,
    ensures
        u64_as_f64(b) == div_round_even(b, two_pow(e)) * two_pow(e),
{
    lemma_shift_range(b);
    let s: nat = f64_shift(b);
    let l: nat = 0x20_0000_0000_0000;
    if s < e {
        lemma_two_pow_grows(s, (e - 1) as nat);
        assert(l * two_pow(s) <= l * two_pow((e - 1) as nat)) by (nonlinear_arith)
            requires
                two_pow(s) <= two_pow((e - 1) as nat),
        ;
        assert(false);
    } else if s > e {
        lemma_two_pow_grows(e, (s - 1) as nat);
        assert(l * two_pow(e) <= l * two_pow((s - 1) as nat)) by (nonlinear_arith)
            requires
                two_pow(e) <= two_pow((s - 1) as nat),
        ;
        assert(false);
    }
}

} // verus!
