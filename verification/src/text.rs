//! Building text: decimal and hexadecimal numerals, and concatenation.
use vstd::prelude::*;
use vstd::string::StringExecFns;

verus! {

/// The digit character of `d` (0 to 15), hexadecimal digits in lower case.
pub open spec fn digit_char(d: nat) -> char {
    if d == 0 { '0' } else if d == 1 { '1' } else if d == 2 { '2' } else if d == 3 { '3' } else if d == 4 { '4' }
    else if d == 5 { '5' } else if d == 6 { '6' } else if d == 7 { '7' } else if d == 8 { '8' } else if d == 9 { '9' }
    else if d == 10 { 'a' } else if d == 11 { 'b' } else if d == 12 { 'c' } else if d == 13 { 'd' } else if d == 14 { 'e' }
    else { 'f' }
}

/// The decimal numeral of `n`.
pub open spec fn decimal(n: nat) -> Seq<char>
    decreases n,
{
    if n < 10 {
        seq![digit_char(n)]
    } else {
        decimal(n / 10).push(digit_char(n % 10))
    }
}

/// A decimal digit.
pub open spec fn is_decimal_digit(c: char) -> bool {
    c == '0' || c == '1' || c == '2' || c == '3' || c == '4' || c == '5' || c == '6' || c == '7' || c == '8' || c == '9'
}

/// A decimal numeral is a nonempty run of decimal digits.
pub proof fn lemma_decimal_digits(n: nat)
    ensures
        decimal(n).len() >= 1,
        forall|i: int| 0 <= i < decimal(n).len() ==> is_decimal_digit(#[trigger] decimal(n)[i]),
    decreases n,
{
    if n >= 10 {
        lemma_decimal_digits(n / 10);
    }
}

proof fn lemma_digit_char_injective(a: nat, b: nat)
    requires
        a < 10,
        b < 10,
        digit_char(a) == digit_char(b),
    ensures
        a == b,
{
}

/// Different numbers have different decimal numerals.
pub proof fn lemma_decimal_injective(a: nat, b: nat)
    requires
        decimal(a) == decimal(b),
    ensures
        a == b,
    decreases a,
{
    lemma_decimal_digits(a);
    lemma_decimal_digits(b);
    if a >= 10 && b >= 10 {
        lemma_decimal_digits(a / 10);
        lemma_decimal_digits(b / 10);
        assert(decimal(a).last() == digit_char(a % 10));
        assert(decimal(b).last() == digit_char(b % 10));
        assert(decimal(a / 10) =~= decimal(a).drop_last());
        assert(decimal(b / 10) =~= decimal(b).drop_last());
        lemma_decimal_injective(a / 10, b / 10);
        lemma_digit_char_injective(a % 10, b % 10);
        assert(a == 10 * (a / 10) + a % 10) by (nonlinear_arith);
        assert(b == 10 * (b / 10) + b % 10) by (nonlinear_arith);
    } else if a < 10 && b < 10 {
        assert(decimal(a)[0] == digit_char(a));
        assert(decimal(b)[0] == digit_char(b));
        lemma_digit_char_injective(a, b);
    } else if a >= 10 {
        lemma_decimal_digits(a / 10);
    } else if b >= 10 {
        lemma_decimal_digits(b / 10);
    }
}

/// A numeral followed by a separator that is no digit determines the number:
/// `pre + decimal(a) + sep + x == pre + decimal(b) + sep + y` forces `a == b`.
pub proof fn lemma_numeral_before_separator(pre: Seq<char>, a: nat, b: nat, sep: char, x: Seq<char>, y: Seq<char>)
    requires
        !is_decimal_digit(sep),
        pre + decimal(a) + seq![sep] + x == pre + decimal(b) + seq![sep] + y,
    ensures
        a == b,
{
    let s = pre + decimal(a) + seq![sep] + x;
    let t = pre + decimal(b) + seq![sep] + y;
    let da = decimal(a);
    let db = decimal(b);
    lemma_decimal_digits(a);
    lemma_decimal_digits(b);
    let l = pre.len() as int;
    if da.len() < db.len() {
        assert(s[l + da.len()] == sep);
        assert(t[l + da.len()] == db[da.len() as int]);
        assert(false);
    } else if db.len() < da.len() {
        assert(t[l + db.len()] == sep);
        assert(s[l + db.len()] == da[db.len() as int]);
        assert(false);
    }
    assert forall|i: int| 0 <= i < da.len() implies da[i] == db[i] by {
        assert(s[l + i] == da[i]);
        assert(t[l + i] == db[i]);
    }
    assert(da =~= db);
    lemma_decimal_injective(a, b);
}

/// The two lower-case hexadecimal digits of a byte.
pub open spec fn hex_byte(b: u8) -> Seq<char> {
    seq![digit_char((b / 16) as nat), digit_char((b % 16) as nat)]
}

/// The lower-case hexadecimal text of the bytes, two digits each.
pub open spec fn hex_bytes(bs: Seq<u8>) -> Seq<char>
    decreases bs.len(),
{
    if bs.len() == 0 {
        seq![]
    } else {
        hex_bytes(bs.drop_last()) + hex_byte(bs.last())
    }
}

pub(crate) fn digit_str(d: usize) -> (r: &'static str)
    requires
        d < 16,
    ensures
        r@ == seq![digit_char(d as nat)],
{
    let r = match d {
        0 => "0",
        1 => "1",
        2 => "2",
        3 => "3",
        4 => "4",
        5 => "5",
        6 => "6",
        7 => "7",
        8 => "8",
        9 => "9",
        10 => "a",
        11 => "b",
        12 => "c",
        13 => "d",
        14 => "e",
        _ => "f",
    };
    proof {
        reveal_strlit("0");
        reveal_strlit("1");
        reveal_strlit("2");
        reveal_strlit("3");
        reveal_strlit("4");
        reveal_strlit("5");
        reveal_strlit("6");
        reveal_strlit("7");
        reveal_strlit("8");
        reveal_strlit("9");
        reveal_strlit("a");
        reveal_strlit("b");
        reveal_strlit("c");
        reveal_strlit("d");
        reveal_strlit("e");
        reveal_strlit("f");
    }
    r
}

/// The decimal numeral of `n`.
pub fn decimal_string(n: u64) -> (r: String)
    ensures
        r@ == decimal(n as nat),
    decreases n,
{
    if n < 10 {
        String::from_str(digit_str(n as usize))
    } else {
        let mut s = decimal_string(n / 10);
        s.append(digit_str((n % 10) as usize));
        s
    }
}

/// The lower-case hexadecimal text of the bytes.
pub fn hex_string(bs: &Vec<u8>) -> (r: String)
    ensures
        r@ == hex_bytes(bs@),
{
    let mut s = String::new();
    let mut i: usize = 0;
    while i < bs.len()
        invariant
            i <= bs.len(),
            s@ == hex_bytes(bs@.subrange(0, i as int)),
        decreases bs.len() - i,
    {
        let b = bs[i];
        s.append(digit_str((b / 16) as usize));
        s.append(digit_str((b % 16) as usize));
        proof {
            let sub = bs@.subrange(0, i + 1);
            assert(sub.drop_last() =~= bs@.subrange(0, i as int));
            assert(sub.last() == b);
        }
        i = i + 1;
    }
    proof {
        assert(bs@.subrange(0, bs.len() as int) =~= bs@);
    }
    s
}

/// `a` followed by `b`.
pub fn concat(a: &String, b: &String) -> (r: String)
    ensures
        r@ == a@ + b@,
{
    let mut s = a.clone();
    s.append(b.as_str());
    s
}

/// `a` followed by the literal `b`.
pub fn concat_str(a: &String, b: &str) -> (r: String)
    ensures
        r@ == a@ + b@,
{
    let mut s = a.clone();
    s.append(b);
    s
}

} // verus!
