//! Numbers below 2^320, held in five 64-bit limbs, and the arithmetic that
//! negates a curve coordinate modulo the field prime.
use vstd::prelude::*;
use vstd::string::{StringExecFns, StrSliceExecFns};
use crate::text::{digit_char, digit_str};

verus! {

/// 2^64.
pub open spec fn b1() -> nat {
    18446744073709551616
}

/// 2^128.
pub open spec fn b2() -> nat {
    340282366920938463463374607431768211456nat
}

/// 2^192.
pub open spec fn b3() -> nat {
    6277101735386680763835789423207666416102355444464034512896nat
}

/// 2^256.
pub open spec fn b4() -> nat {
    115792089237316195423570985008687907853269984665640564039457584007913129639936nat
}

/// 2^320.
pub open spec fn b5() -> nat {
    2135987035920910082395021706169552114602704522356652769947041607822219725780640550022962086936576nat
}

/// The prime of the field over which the curve points are defined.
pub open spec fn field_prime() -> nat {
    21888242871839275222246405745257275088696311157297823662689037894645226208583nat
}

/// A number below 2^320, least significant limb first.
pub struct Wide {
    pub l0: u64,
    pub l1: u64,
    pub l2: u64,
    pub l3: u64,
    pub l4: u64,
}

/// The number the limbs hold.
pub open spec fn wide_value(w: Wide) -> nat {
    w.l0 as nat + w.l1 as nat * b1() + w.l2 as nat * b2() + w.l3 as nat * b3() + w.l4 as nat * b4()
}

/// The field prime in limbs.
fn prime() -> (r: Wide)
    ensures
        wide_value(r) == field_prime(),
{
    Wide { l0: 0x3c208c16d87cfd47, l1: 0x97816a916871ca8d, l2: 0xb85045b68181585d, l3: 0x30644e72e131a029, l4: 0 }
}

/// One limb of `x * b + c`: the low 64 bits and the carry.
fn mul_add_limb(x: u64, b: u64, c: u64) -> (r: (u64, u64))
    requires
        b <= 16,
        c <= 16,
    ensures
        r.0 as nat + r.1 as nat * b1() == x as nat * b as nat + c as nat,
        r.1 <= 16,
{
    assert(x as nat * b as nat <= 18446744073709551615 * 16) by (nonlinear_arith)
        requires
            x <= 18446744073709551615,
            b <= 16,
    ;
    let t: u128 = x as u128 * b as u128 + c as u128;
    let lo = (t % 18446744073709551616u128) as u64;
    let hi = (t / 18446744073709551616u128) as u64;
    (lo, hi)
}

/// `w * b + d`.
fn mul_add(w: &Wide, b: u64, d: u64) -> (r: Wide)
    requires
        wide_value(*w) < b4(),
        b <= 16,
        d <= 16,
    ensures
        wide_value(r) == wide_value(*w) * b + d,
{
    let (n0, c0) = mul_add_limb(w.l0, b, d);
    let (n1, c1) = mul_add_limb(w.l1, b, c0);
    let (n2, c2) = mul_add_limb(w.l2, b, c1);
    let (n3, c3) = mul_add_limb(w.l3, b, c2);
    let (n4, c4) = mul_add_limb(w.l4, b, c3);
    let r = Wide { l0: n0, l1: n1, l2: n2, l3: n3, l4: n4 };
    proof {
        let v = wide_value(*w);
        assert(v * b == w.l0 as nat * b + (w.l1 as nat * b) * b1() + (w.l2 as nat * b) * b2() + (w.l3 as nat * b) * b3()
            + (w.l4 as nat * b) * b4()) by (nonlinear_arith)
            requires
                v == w.l0 as nat + w.l1 as nat * b1() + w.l2 as nat * b2() + w.l3 as nat * b3() + w.l4 as nat * b4(),
        ;
        assert(w.l4 == 0);
        assert(v * b + d < b5()) by (nonlinear_arith)
            requires
                v < b4(),
                b <= 16,
                d <= 16,
                b5() == b4() * b1(),
        ;
        assert(wide_value(r) + c4 as nat * b5() == v * b + d);
        assert(c4 == 0);
    }
    r
}

/// One limb of `x - y - borrow`: the result modulo 2^64 and the new borrow.
fn sub_limb(x: u64, y: u64, borrow: u64) -> (r: (u64, u64))
    requires
        borrow <= 1,
    ensures
        r.0 as int - r.1 as int * b1() == x as int - y as int - borrow as int,
        r.1 <= 1,
{
    let t: u128 = x as u128 + 18446744073709551616u128 - y as u128 - borrow as u128;
    if t >= 18446744073709551616u128 {
        ((t - 18446744073709551616u128) as u64, 0)
    } else {
        (t as u64, 1)
    }
}

/// `a - b`, modulo 2^320, and whether it borrowed (`a < b`).
fn sub_wide(a: &Wide, b: &Wide) -> (r: (Wide, u64))
    ensures
        wide_value(r.0) as int - r.1 as int * b5() == wide_value(*a) as int - wide_value(*b) as int,
        r.1 <= 1,
{
    let (n0, c0) = sub_limb(a.l0, b.l0, 0);
    let (n1, c1) = sub_limb(a.l1, b.l1, c0);
    let (n2, c2) = sub_limb(a.l2, b.l2, c1);
    let (n3, c3) = sub_limb(a.l3, b.l3, c2);
    let (n4, c4) = sub_limb(a.l4, b.l4, c3);
    (Wide { l0: n0, l1: n1, l2: n2, l3: n3, l4: n4 }, c4)
}

/// The limbs hold a number below 2^320.
proof fn lemma_wide_bound(w: Wide)
    ensures
        wide_value(w) < b5(),
{
}

/// `w` modulo the field prime.
fn reduce(w: Wide) -> (r: Wide)
    ensures
        wide_value(r) == wide_value(w) % field_prime(),
{
    let q = prime();
    let mut r = w;
    loop
        invariant
            wide_value(q) == field_prime(),
            wide_value(r) % field_prime() == wide_value(w) % field_prime(),
        decreases wide_value(r),
    {
        let (d, borrow) = sub_wide(&r, &q);
        proof {
            lemma_wide_bound(d);
            lemma_wide_bound(r);
        }
        if borrow == 1 {
            proof {
                vstd::arithmetic::div_mod::lemma_small_mod(wide_value(r), field_prime());
            }
            return r;
        }
        proof {
            vstd::arithmetic::div_mod::lemma_mod_sub_multiples_vanish(wide_value(r) as int, field_prime() as int);
        }
        r = d;
    }
}

/// `w` divided by 16, and the remainder.
fn div16(w: &Wide) -> (r: (Wide, u64))
    ensures
        wide_value(r.0) * 16 + r.1 == wide_value(*w),
        r.1 < 16,
{
    let n0 = w.l0 / 16 + (w.l1 % 16) * 0x1000000000000000;
    let n1 = w.l1 / 16 + (w.l2 % 16) * 0x1000000000000000;
    let n2 = w.l2 / 16 + (w.l3 % 16) * 0x1000000000000000;
    let n3 = w.l3 / 16 + (w.l4 % 16) * 0x1000000000000000;
    let n4 = w.l4 / 16;
    (Wide { l0: n0, l1: n1, l2: n2, l3: n3, l4: n4 }, w.l0 % 16)
}

/// The digits of `n` in base 16, most significant first, without leading
/// zeros (one zero for 0), in lower case.
pub open spec fn hex_digits(n: nat) -> Seq<char>
    decreases n,
{
    if n < 16 {
        seq![digit_char(n)]
    } else {
        hex_digits(n / 16).push(digit_char(n % 16))
    }
}

/// The characters of digits given as numbers below 16.
pub open spec fn digit_chars(ds: Seq<u64>) -> Seq<char> {
    ds.map_values(|d: u64| digit_char(d as nat))
}

/// Python's `hex` of `n`: `0x` and the lower-case hexadecimal digits.
pub open spec fn python_hex(n: nat) -> Seq<char> {
    "0x"@ + hex_digits(n)
}

/// The text `python_hex` gives for the number in `w`.
fn hex_text(w: &Wide) -> (r: String)
    ensures
        r@ == python_hex(wide_value(*w)),
{
    let mut cur = Wide { l0: w.l0, l1: w.l1, l2: w.l2, l3: w.l3, l4: w.l4 };
    let mut ds: Vec<u64> = Vec::new();
    loop
        invariant_except_break
            hex_digits(wide_value(*w)) == hex_digits(wide_value(cur)) + digit_chars(ds@),
        invariant
            forall|i: int| 0 <= i < ds.len() ==> #[trigger] ds@[i] < 16,
        ensures
            hex_digits(wide_value(*w)) == digit_chars(ds@),
        decreases wide_value(cur),
    {
        let (next, d) = div16(&cur);
        if next.l0 == 0 && next.l1 == 0 && next.l2 == 0 && next.l3 == 0 && next.l4 == 0 {
            proof {
                assert(wide_value(cur) == d);
                assert(hex_digits(wide_value(cur)) == seq![digit_char(d as nat)]);
                assert(digit_chars(ds@.insert(0, d)) =~= seq![digit_char(d as nat)] + digit_chars(ds@));
            }
            ds.insert(0, d);
            break;
        }
        proof {
            let v = wide_value(cur);
            assert(v >= 16);
            assert(v / 16 == wide_value(next) && v % 16 == d);
            assert(digit_chars(ds@.insert(0, d)) =~= seq![digit_char(d as nat)] + digit_chars(ds@));
            assert(hex_digits(v) == hex_digits(wide_value(next)).push(digit_char(d as nat)));
            assert(hex_digits(wide_value(next)).push(digit_char(d as nat)) + digit_chars(ds@) =~= hex_digits(
                wide_value(next),
            ) + digit_chars(ds@.insert(0, d)));
        }
        ds.insert(0, d);
        cur = next;
    }
    let mut s = String::from_str("0x");
    proof {
        reveal_strlit("0x");
    }
    let mut i: usize = 0;
    while i < ds.len()
        invariant
            i <= ds.len(),
            s@ == "0x"@ + digit_chars(ds@.subrange(0, i as int)),
            hex_digits(wide_value(*w)) == digit_chars(ds@),
            forall|j: int| 0 <= j < ds.len() ==> #[trigger] ds@[j] < 16,
        decreases ds.len() - i,
    {
        s.append(digit_str(ds[i] as usize));
        proof {
            assert(digit_chars(ds@.subrange(0, i + 1)) =~= digit_chars(ds@.subrange(0, i as int)).push(
                digit_char(ds@[i as int] as nat),
            ));
        }
        i = i + 1;
    }
    proof {
        assert(ds@.subrange(0, ds.len() as int) =~= ds@);
    }
    s
}

/// The value of a digit character: `0` to `9`, then `a` to `f` in either
/// case for 10 to 15; 16 for any other character.
pub open spec fn digit_value(c: char) -> nat {
    if '0' <= c <= '9' {
        (c as int - '0' as int) as nat
    } else if 'a' <= c <= 'f' {
        (c as int - 'a' as int + 10) as nat
    } else if 'A' <= c <= 'F' {
        (c as int - 'A' as int + 10) as nat
    } else {
        16
    }
}

/// The number the digits denote in the given base, most significant first.
pub open spec fn digits_value(ds: Seq<char>, base: nat) -> nat
    decreases ds.len(),
{
    if ds.len() == 0 {
        0
    } else {
        digits_value(ds.drop_last(), base) * base + digit_value(ds.last())
    }
}

/// A nonempty run of digits of the given base.
pub open spec fn digits_in(ds: Seq<char>, base: nat) -> bool {
    ds.len() > 0 && forall|i: int| 0 <= i < ds.len() ==> digit_value(#[trigger] ds[i]) < base
}

/// The base of an integer literal and where its digits start: `0x`, `0o`
/// and `0b` (in either case) give bases 16, 8 and 2, anything else base 10.
pub open spec fn literal_base(s: Seq<char>) -> (nat, int) {
    if s.len() >= 2 && s[0] == '0' && (s[1] == 'x' || s[1] == 'X') {
        (16, 2)
    } else if s.len() >= 2 && s[0] == '0' && (s[1] == 'o' || s[1] == 'O') {
        (8, 2)
    } else if s.len() >= 2 && s[0] == '0' && (s[1] == 'b' || s[1] == 'B') {
        (2, 2)
    } else {
        (10, 0)
    }
}

/// The value of an integer literal as Python's `int(s, 0)` reads one
/// without sign, blanks or underscores: digits of its base after the
/// prefix, and a decimal literal without leading zeros (unless it is all
/// zeros). `None` for any other text.
pub open spec fn literal_value(s: Seq<char>) -> Option<nat> {
    let (base, start) = literal_base(s);
    let ds = s.subrange(start, s.len() as int);
    if digits_in(ds, base) && (start != 0 || s[0] != '0' || forall|i: int| 0 <= i < s.len() ==> s[i] == '0') {
        Some(digits_value(ds, base))
    } else {
        None
    }
}

/// The number of a digit character.
fn digit_of(c: char) -> (r: u64)
    requires
        digit_value(c) < 16,
    ensures
        r == digit_value(c),
{
    if '0' <= c && c <= '9' {
        (c as u32 - '0' as u32) as u64
    } else if 'a' <= c && c <= 'f' {
        (c as u32 - 'a' as u32 + 10) as u64
    } else {
        (c as u32 - 'A' as u32 + 10) as u64
    }
}

/// The value of the literal `s` modulo the field prime.
fn literal_mod_prime(s: &str) -> (r: Wide)
    requires
        literal_value(s@) is Some,
    ensures
        wide_value(r) == literal_value(s@).unwrap() % field_prime(),
{
    let n = s.unicode_len();
    let mut base: u64 = 10;
    let mut start: usize = 0;
    if n >= 2 && s.get_char(0) == '0' {
        let c = s.get_char(1);
        if c == 'x' || c == 'X' {
            base = 16;
            start = 2;
        } else if c == 'o' || c == 'O' {
            base = 8;
            start = 2;
        } else if c == 'b' || c == 'B' {
            base = 2;
            start = 2;
        }
    }
    let ghost ds = s@.subrange(start as int, n as int);
    proof {
        assert(literal_base(s@) == (base as nat, start as int));
    }
    let mut r = Wide { l0: 0, l1: 0, l2: 0, l3: 0, l4: 0 };
    let mut i: usize = start;
    proof {
        assert(s@.subrange(start as int, i as int) =~= Seq::<char>::empty());
    }
    while i < n
        invariant
            start <= i <= n,
            n == s@.len(),
            base <= 16,
            base > 0,
            ds == s@.subrange(start as int, n as int),
            digits_in(ds, base as nat),
            wide_value(r) == digits_value(s@.subrange(start as int, i as int), base as nat) % field_prime(),
        decreases n - i,
    {
        let c = s.get_char(i);
        proof {
            assert(c == ds[i - start]);
        }
        let d = digit_of(c);
        let ghost x = digits_value(s@.subrange(start as int, i as int), base as nat);
        let ghost q = field_prime() as int;
        proof {
            assert(wide_value(r) < field_prime()) by {
                vstd::arithmetic::div_mod::lemma_mod_bound(x as int, q);
            }
        }
        let m = mul_add(&r, base, d);
        r = reduce(m);
        proof {
            let sub = s@.subrange(start as int, i + 1);
            assert(sub.drop_last() =~= s@.subrange(start as int, i as int));
            assert(sub.last() == c);
            assert(digits_value(sub, base as nat) == x * base + d);
            let b = base as int;
            vstd::arithmetic::div_mod::lemma_mul_mod_noop_left(x as int, b, q);
            vstd::arithmetic::div_mod::lemma_add_mod_noop((x as int % q) * b, d as int, q);
            vstd::arithmetic::div_mod::lemma_add_mod_noop(x as int * b, d as int, q);
        }
        i = i + 1;
    }
    proof {
        assert(s@.subrange(start as int, n as int) == ds);
    }
    r
}

/// Python's `hex(q - (int(y, 0) % q))` for the field prime `q`: the
/// coordinate of the negated point.
pub open spec fn negated_coordinate(y: Seq<char>) -> Seq<char> {
    python_hex((field_prime() - literal_value(y).unwrap() % field_prime()) as nat)
}

proof fn lemma_digit_char_value(d: nat)
    requires
        d < 16,
    ensures
        digit_value(digit_char(d)) == d,
{
}

proof fn lemma_hex_digits_value(n: nat)
    ensures
        digits_in(hex_digits(n), 16),
        digits_value(hex_digits(n), 16) == n,
    decreases n,
{
    let s = hex_digits(n);
    if n < 16 {
        lemma_digit_char_value(n);
        assert(s.drop_last() =~= Seq::<char>::empty());
        assert(digits_value(s.drop_last(), 16) == 0);
    } else {
        lemma_hex_digits_value(n / 16);
        lemma_digit_char_value(n % 16);
        assert(s.drop_last() =~= hex_digits(n / 16));
        assert forall|i: int| 0 <= i < s.len() implies digit_value(#[trigger] s[i]) < 16 by {
            if i < s.len() - 1 {
                assert(s[i] == hex_digits(n / 16)[i]);
            }
        }
        assert(s.last() == digit_char(n % 16));
        vstd::arithmetic::div_mod::lemma_fundamental_div_mod(n as int, 16);
        assert(digits_value(s, 16) == digits_value(hex_digits(n / 16), 16) * 16 + digit_value(digit_char(n % 16)));
    }
}

/// `python_hex` of a number reads back as that number.
pub proof fn lemma_python_hex_value(n: nat)
    ensures
        literal_value(python_hex(n)) == Some(n),
{
    reveal_strlit("0x");
    lemma_hex_digits_value(n);
    let s = python_hex(n);
    assert(s[0] == '0' && s[1] == 'x');
    assert(s.subrange(2, s.len() as int) =~= hex_digits(n));
}

/// The negated coordinate of an integer literal `y` is a literal whose value
/// `v` lies in `1..=q` and cancels `y` modulo the field prime `q`.
pub proof fn law_negated_coordinate_cancels(y: Seq<char>)
    requires
        literal_value(y) is Some,
    ensures
        literal_value(negated_coordinate(y)) matches Some(v)
            && (v + literal_value(y).unwrap()) % field_prime() == 0
            && 0 < v <= field_prime(),
{
    let x = literal_value(y).unwrap() as int;
    let q = field_prime() as int;
    vstd::arithmetic::div_mod::lemma_mod_bound(x, q);
    vstd::arithmetic::div_mod::lemma_fundamental_div_mod(x, q);
    let m = x % q;
    let d = x / q;
    lemma_python_hex_value((q - m) as nat);
    assert(q - m + x == (d + 1) * q) by (nonlinear_arith)
        requires x == q * d + m;
    vstd::arithmetic::div_mod::lemma_mod_multiples_basic(d + 1, q);
}

/// The coordinate of the negated point (see `negated_coordinate`).
pub fn negate_coordinate(y: &String) -> (r: String)
    requires
        literal_value(y@) is Some,
    ensures
        r@ == negated_coordinate(y@),
{
    let v = literal_mod_prime(y.as_str());
    let q = prime();
    let (n, borrow) = sub_wide(&q, &v);
    proof {
        lemma_wide_bound(n);
        vstd::arithmetic::div_mod::lemma_mod_bound(literal_value(y@).unwrap() as int, field_prime() as int);
    }
    hex_text(&n)
}

/// Whether `s` is an integer literal (see `literal_value`).
pub fn is_literal(s: &String) -> (r: bool)
    ensures
        r == (literal_value(s@) is Some),
{
    let t = s.as_str();
    let n = t.unicode_len();
    let mut base: u64 = 10;
    let mut start: usize = 0;
    if n >= 2 && t.get_char(0) == '0' {
        let c = t.get_char(1);
        if c == 'x' || c == 'X' {
            base = 16;
            start = 2;
        } else if c == 'o' || c == 'O' {
            base = 8;
            start = 2;
        } else if c == 'b' || c == 'B' {
            base = 2;
            start = 2;
        }
    }
    proof {
        assert(literal_base(s@) == (base as nat, start as int));
    }
    let ghost ds = s@.subrange(start as int, n as int);
    if start >= n {
        proof {
            assert(ds.len() == 0);
        }
        return false;
    }
    let mut i: usize = start;
    while i < n
        invariant
            start <= i <= n,
            n == s@.len(),
            t@ == s@,
            ds == s@.subrange(start as int, n as int),
            base <= 16,
            literal_base(s@) == (base as nat, start as int),
            forall|j: int| start <= j < i ==> digit_value(#[trigger] s@[j]) < base,
        decreases n - i,
    {
        let c = t.get_char(i);
        if '0' <= c && c <= '9' || 'a' <= c && c <= 'f' || 'A' <= c && c <= 'F' {
            let d = digit_of(c);
            if d >= base {
                proof {
                    assert(ds[i - start] == c);
                    assert(!(digit_value(ds[i - start]) < base));
                }
                return false;
            }
        } else {
            proof {
                assert(ds[i - start] == c);
                assert(digit_value(c) == 16);
                assert(!(digit_value(ds[i - start]) < base));
            }
            return false;
        }
        i = i + 1;
    }
    proof {
        assert forall|j: int| 0 <= j < ds.len() implies digit_value(#[trigger] ds[j]) < base by {
            assert(ds[j] == s@[j + start]);
        }
    }
    if start == 0 && t.get_char(0) == '0' {
        proof {
            assert(s@[0] == '0');
        }
        let mut k: usize = 0;
        while k < n
            invariant
                k <= n,
                n == s@.len(),
                t@ == s@,
                forall|j: int| 0 <= j < k ==> #[trigger] s@[j] == '0',
                s@[0] == '0',
                start == 0,
                literal_base(s@) == (base as nat, start as int),
            decreases n - k,
        {
            if t.get_char(k) != '0' {
                proof {
                    assert(s@[k as int] != '0');
                    assert(s@[0] == '0');
                }
                return false;
            }
            k = k + 1;
        }
    }
    true
}

} // verus!
