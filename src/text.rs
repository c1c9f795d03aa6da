//! Decimal digits in text: what a run of digits means, and how a number is written.
use vstd::prelude::*;

verus! {

pub open spec fn is_digit(c: char) -> bool {
    '0' <= c && c <= '9'
}

pub open spec fn digit_value(c: char) -> int {
    c as int - '0' as int
}

pub open spec fn digit_char(d: int) -> char {
    if d == 0 {
        '0'
    } else if d == 1 {
        '1'
    } else if d == 2 {
        '2'
    } else if d == 3 {
        '3'
    } else if d == 4 {
        '4'
    } else if d == 5 {
        '5'
    } else if d == 6 {
        '6'
    } else if d == 7 {
        '7'
    } else if d == 8 {
        '8'
    } else {
        '9'
    }
}

pub open spec fn all_digits(s: Seq<char>) -> bool {
    forall|i: int| 0 <= i < s.len() ==> is_digit(#[trigger] s[i])
}

/// The number that a run of decimal digits denotes, most significant first.
pub open spec fn digits_value(s: Seq<char>) -> int
    decreases s.len(),
{
    if s.len() == 0 {
        0
    } else {
        digits_value(s.drop_last()) * 10 + digit_value(s.last())
    }
}

/// `n` in decimal, padded on the left with zeros to at least `w` digits.
pub open spec fn decimal(n: nat, w: nat) -> Seq<char>
    decreases n + w,
{
    if w <= 1 && n < 10 {
        seq![digit_char(n as int)]
    } else {
        decimal(n / 10, if w >= 1 { (w - 1) as nat } else { 0 }).push(digit_char((n % 10) as int))
    }
}

/// `n` zero digits.
pub open spec fn zeros(n: nat) -> Seq<char> {
    Seq::new(n, |i: int| '0')
}

pub open spec fn pow10(k: nat) -> nat
    decreases k,
{
    if k == 0 {
        1
    } else {
        10 * pow10((k - 1) as nat)
    }
}

pub proof fn lemma_pow10_mono(a: nat, b: nat)
    requires
        a <= b,
    ensures
        1 <= pow10(a) <= pow10(b),
    decreases b,
{
    if b > 0 {
        if a < b {
            lemma_pow10_mono(a, (b - 1) as nat);
        } else {
            lemma_pow10_mono(0, (b - 1) as nat);
        }
    }
}

pub proof fn lemma_digit_char(d: int)
    requires
        0 <= d < 10,
    ensures
        is_digit(digit_char(d)),
        digit_value(digit_char(d)) == d,
{
}

/// Writing `n` with at least `w` digits and reading it back gives `n`.
pub proof fn lemma_decimal(n: nat, w: nat)
    ensures
        digits_value(decimal(n, w)) == n,
        all_digits(decimal(n, w)),
        decimal(n, w).len() >= 1,
        n < pow10(w) && w >= 1 ==> decimal(n, w).len() == w,
    decreases n + w,
{
    let s = decimal(n, w);
    lemma_digit_char((n % 10) as int);
    reveal_with_fuel(digits_value, 2);
    if w <= 1 && n < 10 {
        assert(s.drop_last() =~= Seq::<char>::empty());
        reveal_with_fuel(pow10, 2);
    } else {
        let w1: nat = if w >= 1 { (w - 1) as nat } else { 0 };
        lemma_decimal(n / 10, w1);
        assert(s.drop_last() =~= decimal(n / 10, w1));
        if n < pow10(w) && w >= 1 {
            assert(n / 10 < pow10(w1)) by {
                assert(pow10(w) == 10 * pow10(w1));
            }
            if w1 == 0 {
                assert(n < 10);
            }
        }
    }
}

/// The text of one decimal digit.
fn digit_text(d: u64) -> (r: &'static str)
    requires
        d < 10,
    ensures
        r@ == seq![digit_char(d as int)],
{
    match d {
        0 => {
            proof {
                reveal_strlit("0");
            }
            "0"
        },
        1 => {
            proof {
                reveal_strlit("1");
            }
            "1"
        },
        2 => {
            proof {
                reveal_strlit("2");
            }
            "2"
        },
        3 => {
            proof {
                reveal_strlit("3");
            }
            "3"
        },
        4 => {
            proof {
                reveal_strlit("4");
            }
            "4"
        },
        5 => {
            proof {
                reveal_strlit("5");
            }
            "5"
        },
        6 => {
            proof {
                reveal_strlit("6");
            }
            "6"
        },
        7 => {
            proof {
                reveal_strlit("7");
            }
            "7"
        },
        8 => {
            proof {
                reveal_strlit("8");
            }
            "8"
        },
        _ => {
            proof {
                reveal_strlit("9");
            }
            "9"
        },
    }
}

/// Appends `n` in decimal, padded with zeros to at least `w` digits.
pub fn push_decimal(out: &mut String, n: u64, w: u64)
    ensures
        final(out)@ == old(out)@ + decimal(n as nat, w as nat),
    decreases n + w,
{
    if w <= 1 && n < 10 {
        out.append(digit_text(n));
    } else {
        let w1: u64 = if w >= 1 { w - 1 } else { 0 };
        push_decimal(out, n / 10, w1);
        out.append(digit_text(n % 10));
        assert(final(out)@ =~= old(out)@ + decimal(n as nat, w as nat));
    }
}

/// Appends a piece of fixed text.
pub fn push_text(out: &mut String, t: &str)
    ensures
        final(out)@ == old(out)@ + t@,
{
    out.append(t);
}

/// Reads the `len` characters of `s` from `start` on as a decimal number.
pub fn read_digits(s: &str, start: usize, len: usize) -> (r: Option<u64>)
    requires
        start + len <= s@.len(),
        len <= 9,
    ensures
        r == (if all_digits(s@.subrange(start as int, start + len)) {
            Some(digits_value(s@.subrange(start as int, start + len)) as u64)
        } else {
            None
        }),
        r matches Some(v) ==> v == digits_value(s@.subrange(start as int, start + len)) && v < pow10(
            len as nat,
        ),
{
    let ghost t = s@.subrange(start as int, start + len);
    let total = s.unicode_len();
    let mut acc: u64 = 0;
    let mut i: usize = 0;
    proof {
        lemma_pow10_mono(len as nat, 9);
        reveal_with_fuel(pow10, 10);
    }
    while i < len
        invariant
            i <= len <= 9,
            start + len <= s@.len(),
            total == s@.len(),
            t == s@.subrange(start as int, start + len),
            all_digits(t.subrange(0, i as int)),
            acc == digits_value(t.subrange(0, i as int)),
            acc < pow10(i as nat),
            pow10(len as nat) <= 1_000_000_000,
        decreases len - i,
    {
        let c = s.get_char(start + i);
        if c < '0' || c > '9' {
            assert(!is_digit(t[i as int]));
            return None;
        }
        proof {
            lemma_pow10_mono((i + 1) as nat, len as nat);
            assert(t.subrange(0, i + 1).drop_last() =~= t.subrange(0, i as int));
        }
        acc = acc * 10 + (c as u64 - '0' as u64);
        i = i + 1;
    }
    assert(t.subrange(0, len as int) =~= t);
    Some(acc)
}

/// A run of digits denotes a number below ten to the power of its length.
pub proof fn lemma_digits_value_bounds(s: Seq<char>)
    requires
        all_digits(s),
    ensures
        0 <= digits_value(s) < pow10(s.len()),
    decreases s.len(),
{
    if s.len() > 0 {
        assert(all_digits(s.drop_last())) by {
            assert forall|i: int| 0 <= i < s.drop_last().len() implies is_digit(
                #[trigger] s.drop_last()[i],
            ) by {
                assert(s.drop_last()[i] == s[i]);
            }
        }
        lemma_digits_value_bounds(s.drop_last());
        assert(is_digit(s[s.len() - 1]));
    }
}

/// Zeros appended to a run of digits multiply its value by a power of ten.
pub proof fn lemma_digits_value_zeros(s: Seq<char>, j: nat)
    ensures
        digits_value(s + zeros(j)) == digits_value(s) * pow10(j),
    decreases j,
{
    if j == 0 {
        assert(s + zeros(0) =~= s);
        assert(pow10(0) == 1);
    } else {
        let j1 = (j - 1) as nat;
        let z = s + zeros(j);
        assert(z.drop_last() =~= s + zeros(j1));
        assert(z.last() == '0');
        assert(digit_value('0') == 0);
        assert(digits_value(z) == digits_value(z.drop_last()) * 10 + digit_value(z.last()));
        lemma_digits_value_zeros(s, j1);
        let a = digits_value(s);
        let p = pow10(j1);
        assert(pow10(j) == 10 * p);
        assert(digits_value(z) == (a * p) * 10);
        assert((a * p) * 10 == a * (10 * p)) by (nonlinear_arith);
    }
}

/// A run of digits is the decimal text, at its own width, of the number it denotes.
pub proof fn lemma_decimal_of_digits(s: Seq<char>)
    requires
        s.len() >= 1,
        all_digits(s),
    ensures
        decimal(digits_value(s) as nat, s.len()) == s,
    decreases s.len(),
{
    lemma_digits_value_bounds(s);
    let c = s.last();
    assert(is_digit(s[s.len() - 1]));
    let dv = digit_value(c);
    assert(digit_char(dv) == c);
    let n = digits_value(s);
    if s.len() == 1 {
        assert(s.drop_last() =~= Seq::<char>::empty());
        reveal_with_fuel(digits_value, 2);
        assert(n == dv);
        assert(decimal(n as nat, 1) =~= s);
    } else {
        let p = s.drop_last();
        assert(all_digits(p)) by {
            assert forall|i: int| 0 <= i < p.len() implies is_digit(#[trigger] p[i]) by {
                assert(p[i] == s[i]);
            }
        }
        lemma_digits_value_bounds(p);
        lemma_decimal_of_digits(p);
        assert(n / 10 == digits_value(p));
        assert(n % 10 == dv);
        assert(decimal(n as nat, s.len()) =~= decimal(digits_value(p) as nat, p.len()).push(c));
        assert(p.push(c) =~= s);
    }
}

} // verus!
