use vstd::prelude::*;
use crate::text::push_char;
use vstd::arithmetic::div_mod::lemma_fundamental_div_mod;
use vstd::arithmetic::div_mod::lemma_fundamental_div_mod_converse;

verus! {

/// Greatest common divisor in the mathematical sense (zero for two zeros).
pub open spec fn spec_gcd(a: nat, b: nat) -> nat
    decreases b,
{
    if b == 0 {
        a
    } else {
        spec_gcd(b, a % b)
    }
}

/// `d` divides `x`.
pub open spec fn divides(d: nat, x: nat) -> bool {
    exists|k: nat| #[trigger] (k * d) == x
}

/// The greatest common divisor as the sequencer uses it: never below one.
pub open spec fn gcd_at_least_one(a: nat, b: nat) -> nat {
    if spec_gcd(a, b) == 0 {
        1
    } else {
        spec_gcd(a, b)
    }
}

/// The least common multiple of `a` and `b`, each raised to at least one.
pub open spec fn spec_lcm(a: nat, b: nat) -> nat {
    let x = if a == 0 { 1 } else { a };
    let y = if b == 0 { 1 } else { b };
    (x / spec_gcd(x, y)) * y
}

/// Greatest common divisor by Euclid's algorithm, never less than one.
pub fn gcd(a: usize, b: usize) -> (r: usize)
    ensures
        r == gcd_at_least_one(a as nat, b as nat),
{
    let mut x = a;
    let mut y = b;
    while y != 0
        invariant
            spec_gcd(x as nat, y as nat) == spec_gcd(a as nat, b as nat),
        decreases y,
    {
        let next = x % y;
        x = y;
        y = next;
    }
    if x > 1 {
        x
    } else {
        1
    }
}

proof fn lemma_gcd_divides(a: nat, b: nat)
    ensures
        divides(spec_gcd(a, b), a),
        divides(spec_gcd(a, b), b),
    decreases b,
{
    if b == 0 {
        assert(1 * a == a);
        assert(0 * a == 0);
    } else {
        lemma_gcd_divides(b, a % b);
        let g = spec_gcd(b, a % b);
        let k1 = choose|k: nat| #[trigger] (k * g) == b;
        let k2 = choose|k: nat| #[trigger] (k * g) == a % b;
        lemma_fundamental_div_mod(a as int, b as int);
        let q = (a / b) as nat;
        assert(a == q * b + a % b);
        assert((q * k1 + k2) * g == q * (k1 * g) + k2 * g) by (nonlinear_arith);
        assert(((q * k1 + k2) as nat) * g == a);
    }
}

proof fn lemma_gcd_positive(a: nat, b: nat)
    requires
        a > 0 || b > 0,
    ensures
        spec_gcd(a, b) > 0,
    decreases b,
{
    if b > 0 {
        lemma_gcd_positive(b, a % b);
    }
}

/// The greatest common divisor of two numbers, not both zero, divides each
/// of them.
pub proof fn lemma_gcd_is_common_divisor(a: nat, b: nat)
    requires
        a > 0 || b > 0,
    ensures
        spec_gcd(a, b) > 0,
        a % spec_gcd(a, b) == 0,
        b % spec_gcd(a, b) == 0,
{
    lemma_gcd_positive(a, b);
    lemma_gcd_divides(a, b);
    let g = spec_gcd(a, b);
    let ka = choose|k: nat| #[trigger] (k * g) == a;
    let kb = choose|k: nat| #[trigger] (k * g) == b;
    lemma_fundamental_div_mod_converse(a as int, g as int, ka as int, 0);
    lemma_fundamental_div_mod_converse(b as int, g as int, kb as int, 0);
}

/// The least common multiple is a multiple of both operands (each raised to
/// at least one), and is positive.
pub proof fn lemma_lcm_is_common_multiple(a: nat, b: nat)
    ensures
        spec_lcm(a, b) > 0,
        spec_lcm(a, b) % (if a == 0 { 1 } else { a }) == 0,
        spec_lcm(a, b) % (if b == 0 { 1 } else { b }) == 0,
{
    let x = if a == 0 { 1 } else { a };
    let y = if b == 0 { 1 } else { b };
    lemma_gcd_divides(x, y);
    lemma_gcd_positive(x, y);
    let g = spec_gcd(x, y);
    let kx = choose|k: nat| #[trigger] (k * g) == x;
    let ky = choose|k: nat| #[trigger] (k * g) == y;
    lemma_fundamental_div_mod_converse(x as int, g as int, kx as int, 0);
    assert(x / g == kx);
    assert(kx > 0) by (nonlinear_arith)
        requires
            kx * g == x,
            x > 0,
    ;
    assert(kx * y > 0) by (nonlinear_arith)
        requires
            kx > 0,
            y > 0,
    ;
    assert(kx * y == (kx * ky) * g) by (nonlinear_arith)
        requires
            ky * g == y,
    ;
    assert(kx * y == (ky * kx) * g) by (nonlinear_arith)
        requires
            kx * y == (kx * ky) * g,
    ;
    assert(kx * y == ky * x) by (nonlinear_arith)
        requires
            kx * g == x,
            ky * g == y,
    ;
    lemma_fundamental_div_mod_converse((kx * y) as int, y as int, kx as int, 0);
    lemma_fundamental_div_mod_converse((kx * y) as int, x as int, ky as int, 0);
}

/// Bezout's identity: the greatest common divisor is an integer combination
/// of the two numbers.
proof fn lemma_bezout(a: nat, b: nat) -> (r: (int, int))
    ensures
        r.0 * a + r.1 * b == spec_gcd(a, b),
    decreases b,
{
    if b == 0 {
        (1, 0)
    } else {
        let (s, t) = lemma_bezout(b, a % b);
        lemma_fundamental_div_mod(a as int, b as int);
        let q = (a / b) as int;
        assert(a % b == a - q * b);
        assert(s * b + t * (a - q * b) == t * a + (s - t * q) * b) by (nonlinear_arith);
        (t, s - t * q)
    }
}

/// `a` taken as at least one, as the least common multiple takes its operands.
pub open spec fn at_least_one(a: nat) -> nat {
    if a == 0 { 1 } else { a }
}

/// `m` is a positive common multiple of `a` and `b`, each taken as at least one.
pub open spec fn is_common_multiple(m: nat, a: nat, b: nat) -> bool {
    m >= 1 && m % at_least_one(a) == 0 && m % at_least_one(b) == 0
}

/// The least common multiple is no larger than any positive common multiple.
proof fn lemma_lcm_below_common_multiple(a: nat, b: nat, m: nat)
    requires
        is_common_multiple(m, a, b),
    ensures
        spec_lcm(a, b) <= m,
{
    let x = at_least_one(a);
    let y = at_least_one(b);
    lemma_gcd_divides(x, y);
    lemma_gcd_positive(x, y);
    let g = spec_gcd(x, y);
    let kx = choose|k: nat| #[trigger] (k * g) == x;
    lemma_fundamental_div_mod_converse(x as int, g as int, kx as int, 0);
    assert(spec_lcm(a, b) == kx * y);
    let (s, t) = lemma_bezout(x, y);
    lemma_fundamental_div_mod(m as int, x as int);
    lemma_fundamental_div_mod(m as int, y as int);
    let p = (m / x) as int;
    let q = (m / y) as int;
    assert(m == x * p);
    assert(m == y * q);
    let l = kx * y;
    let big_k = q * s + p * t;
    assert(m * g == l * g * big_k) by (nonlinear_arith)
        requires
            s * x + t * y == g,
            m == x * p,
            m == y * q,
            kx * g == x,
            l == kx * y,
            big_k == q * s + p * t,
    ;
    assert(g * m == g * (l * big_k)) by (nonlinear_arith)
        requires
            m * g == l * g * big_k,
    ;
    vstd::arithmetic::mul::lemma_mul_equality_converse(g as int, m as int, l * big_k);
    assert(m == l * big_k);
    if big_k <= 0 {
        assert(l * big_k <= 0) by (nonlinear_arith)
            requires
                l >= 0,
                big_k <= 0,
        ;
    }
    assert(l * big_k >= l) by (nonlinear_arith)
        requires
            l >= 0,
            big_k >= 1,
    ;
}

/// The least common multiple of `a` and `b` (each taken as at least one) does
/// not depend on their order, is a multiple of each, and is no larger than any
/// positive common multiple of them.
pub proof fn lemma_lcm_least_common_multiple(a: nat, b: nat)
    ensures
        spec_lcm(a, b) == spec_lcm(b, a),
        is_common_multiple(spec_lcm(a, b), a, b),
        forall|m: nat| #[trigger] is_common_multiple(m, a, b) ==> spec_lcm(a, b) <= m,
{
    lemma_lcm_is_common_multiple(a, b);
    lemma_lcm_is_common_multiple(b, a);
    assert forall|m: nat| #[trigger] is_common_multiple(m, a, b) implies spec_lcm(a, b) <= m by {
        lemma_lcm_below_common_multiple(a, b, m);
    }
    lemma_lcm_below_common_multiple(a, b, spec_lcm(b, a));
    lemma_lcm_below_common_multiple(b, a, spec_lcm(a, b));
}

/// Least common multiple of `a` and `b`, each taken as at least one.
pub fn lcm(a: usize, b: usize) -> (r: usize)
    requires
        spec_lcm(a as nat, b as nat) <= usize::MAX,
    ensures
        r == spec_lcm(a as nat, b as nat),
{
    let x = if a > 1 { a } else { 1 };
    let y = if b > 1 { b } else { 1 };
    let g = gcd(x, y);
    proof {
        lemma_gcd_positive(x as nat, y as nat);
    }
    x / g * y
}

/// Least common multiple of `a` and `b` (each taken as at least one), or
/// none when it does not fit in a `usize`.
pub fn checked_lcm(a: usize, b: usize) -> (r: Option<usize>)
    ensures
        match r {
            Some(v) => v == spec_lcm(a as nat, b as nat),
            None => spec_lcm(a as nat, b as nat) > usize::MAX,
        },
{
    let x = if a > 1 { a } else { 1 };
    let y = if b > 1 { b } else { 1 };
    let g = gcd(x, y);
    proof {
        lemma_gcd_positive(x as nat, y as nat);
    }
    (x / g).checked_mul(y)
}

/// The decimal digit character for a value below ten.
pub open spec fn digit_char(d: nat) -> char {
    if d == 0 {
        '0'
    } else if d == 1 {
        '1'
    } else if d == 2 {
        '2'
    } else if d == 3 {
        '3'
    } else if d == 4 {
        '4'
    } else if d == 5 {
        '5'
    } else if d == 6 {
        '6'
    } else if d == 7 {
        '7'
    } else if d == 8 {
        '8'
    } else {
        '9'
    }
}

/// The decimal writing of `n`, without leading zeros.
pub open spec fn decimal(n: nat) -> Seq<char>
    decreases n,
{
    if n < 10 {
        seq![digit_char(n)]
    } else {
        decimal(n / 10).push(digit_char(n % 10))
    }
}

/// A number written in decimal reads back as itself: every character is a
/// digit, and their value is the number.
pub proof fn lemma_decimal_reads_back(n: nat)
    ensures
        decimal(n).len() >= 1,
        all_digits(decimal(n)),
        digits_value(decimal(n)) == n,
    decreases n,
{
    if n < 10 {
        let d = decimal(n);
        assert(d.drop_last() =~= Seq::<char>::empty());
        assert(digits_value(Seq::<char>::empty()) == 0);
        assert(digit_value(digit_char(n)) == n);
        assert(digits_value(d) == digits_value(d.drop_last()) * 10 + digit_value(d.last()));
    } else {
        lemma_decimal_reads_back(n / 10);
        let d = decimal(n);
        assert(d.drop_last() =~= decimal(n / 10));
        assert(d.last() == digit_char(n % 10));
        assert(digit_value(digit_char(n % 10)) == n % 10);
        lemma_fundamental_div_mod(n as int, 10);
        assert(digits_value(d) == digits_value(d.drop_last()) * 10 + digit_value(d.last()));
        assert forall|i: int| 0 <= i < d.len() implies is_digit(#[trigger] d[i]) by {
            if i < d.len() - 1 {
                assert(d[i] == decimal(n / 10)[i]);
            }
        }
    }
}

fn digit_of(d: usize) -> (c: char)
    requires
        d < 10,
    ensures
        c == digit_char(d as nat),
{
    if d == 0 {
        '0'
    } else if d == 1 {
        '1'
    } else if d == 2 {
        '2'
    } else if d == 3 {
        '3'
    } else if d == 4 {
        '4'
    } else if d == 5 {
        '5'
    } else if d == 6 {
        '6'
    } else if d == 7 {
        '7'
    } else if d == 8 {
        '8'
    } else {
        '9'
    }
}

/// Appends the decimal writing of `n` to `out`.
pub fn push_decimal(out: &mut String, n: usize)
    ensures
        final(out)@ == old(out)@ + decimal(n as nat),
    decreases n,
{
    if n < 10 {
        push_char(out, digit_of(n));
        assert(decimal(n as nat) =~= seq![digit_char(n as nat)]);
    } else {
        push_decimal(out, n / 10);
        push_char(out, digit_of(n % 10));
        assert(old(out)@ + decimal(n as nat) =~= old(out)@ + decimal((n / 10) as nat) + seq![
            digit_char((n % 10) as nat),
        ]);
    }
}

/// The decimal writing of `n` as a new string.
pub fn decimal_string(n: usize) -> (r: String)
    ensures
        r@ == decimal(n as nat),
{
    let mut out = String::new();
    push_decimal(&mut out, n);
    assert(out@ =~= decimal(n as nat));
    out
}

/// Value of an ASCII decimal digit character.
pub open spec fn digit_value(c: char) -> nat {
    (c as u32 - '0' as u32) as nat
}

pub open spec fn is_digit(c: char) -> bool {
    '0' <= c && c <= '9'
}

/// The number written by a run of decimal digits.
pub open spec fn digits_value(s: Seq<char>) -> nat
    decreases s.len(),
{
    if s.len() == 0 {
        0
    } else {
        digits_value(s.drop_last()) * 10 + digit_value(s.last())
    }
}

pub open spec fn all_digits(s: Seq<char>) -> bool {
    forall|i: int| 0 <= i < s.len() ==> is_digit(#[trigger] s[i])
}

/// The digits that `str::parse::<usize>` reads: the text after an optional
/// leading `+`.
pub open spec fn unsigned_digits(s: Seq<char>) -> Seq<char> {
    if s.len() > 0 && s[0] == '+' {
        s.drop_first()
    } else {
        s
    }
}

/// What `str::parse::<usize>` accepts: an optional `+`, then one or more
/// ASCII digits whose value fits in a `usize`.
pub open spec fn parses_as_usize(s: Seq<char>) -> bool {
    let d = unsigned_digits(s);
    d.len() > 0 && all_digits(d) && digits_value(d) <= usize::MAX
}

/// Reads an unsigned decimal number the way `str::parse::<usize>` does.
pub fn parse_usize(s: &[char]) -> (r: Option<usize>)
    ensures
        r is Some <==> parses_as_usize(s@),
        r matches Some(v) ==> v == digits_value(unsigned_digits(s@)),
{
    let start: usize = if s.len() > 0 && s[0] == '+' { 1 } else { 0 };
    let ghost d = unsigned_digits(s@);
    assert(d =~= s@.subrange(start as int, s@.len() as int));
    if start >= s.len() {
        return None;
    }
    let mut value: usize = 0;
    let mut i: usize = start;
    while i < s.len()
        invariant
            start <= i <= s@.len(),
            d == s@.subrange(start as int, s@.len() as int),
            d == unsigned_digits(s@),
            all_digits(s@.subrange(start as int, i as int)),
            value == digits_value(s@.subrange(start as int, i as int)),
        decreases s@.len() - i,
    {
        let c = s[i];
        let ghost prefix = s@.subrange(start as int, i as int);
        let ghost next = s@.subrange(start as int, i + 1);
        assert(next.drop_last() =~= prefix);
        if !('0' <= c && c <= '9') {
            assert(!all_digits(d)) by {
                assert(d[i - start] == c);
                assert(!is_digit(d[i - start]));
            }
            return None;
        }
        let dv = (c as u32 - '0' as u32) as usize;
        if value > (usize::MAX - dv) / 10 {
            proof {
                if all_digits(d) {
                    lemma_digits_value_prefix_bound(d, (i + 1 - start) as nat);
                    assert(d.subrange(0, (i + 1 - start) as int) =~= next);
                    assert(digits_value(next) == value * 10 + dv);
                    assert(value * 10 + dv > usize::MAX) by (nonlinear_arith)
                        requires
                            value > (usize::MAX - dv) / 10,
                            dv <= 9,
                    ;
                }
            }
            return None;
        }
        assert(value * 10 + dv <= usize::MAX) by (nonlinear_arith)
            requires
                value <= (usize::MAX - dv) / 10,
                dv <= 9,
        ;
        value = value * 10 + dv;
        i = i + 1;
        assert(all_digits(next));
    }
    assert(s@.subrange(start as int, s@.len() as int) == d);
    Some(value)
}

proof fn lemma_digits_value_prefix_bound(d: Seq<char>, k: nat)
    requires
        k <= d.len(),
        all_digits(d),
    ensures
        digits_value(d.subrange(0, k as int)) <= digits_value(d),
    decreases d.len(),
{
    if k < d.len() {
        lemma_digits_value_prefix_bound(d.drop_last(), k);
        assert(d.drop_last().subrange(0, k as int) =~= d.subrange(0, k as int));
        assert(digits_value(d.drop_last()) <= digits_value(d.drop_last()) * 10 + digit_value(
            d.last(),
        )) by (nonlinear_arith);
    } else {
        assert(d.subrange(0, k as int) =~= d);
    }
}

} // verus!
