//! The wire formats of the temporal types: how each is written as text, and read back.
use vstd::prelude::*;

use crate::calendar::{DateTimeFixedOffset, DateTimeUtc, NaiveDate, NaiveDateTime, NaiveTime};
use crate::text::{
    all_digits, decimal, digits_value, is_digit, lemma_decimal, lemma_digits_value_zeros, pow10,
    push_decimal, push_text, read_digits, zeros,
};

verus! {

/// A year: four digits from 0 to 9999, otherwise a sign and at least four digits.
pub open spec fn year_text(y: int) -> Seq<char> {
    if 0 <= y <= 9999 {
        decimal(y as nat, 4)
    } else if y < 0 {
        seq!['-'] + decimal((-y) as nat, 4)
    } else {
        seq!['+'] + decimal(y as nat, 4)
    }
}

/// `YYYY-MM-DD`.
pub open spec fn date_text(d: NaiveDate) -> Seq<char> {
    year_text(d.year as int) + seq!['-'] + decimal(d.month as nat, 2) + seq!['-'] + decimal(
        d.day as nat,
        2,
    )
}

/// `H:MM:SS`, the hour without padding.
pub open spec fn time_text(t: NaiveTime) -> Seq<char> {
    decimal(t.hour as nat, 1) + seq![':'] + decimal(t.minute as nat, 2) + seq![':'] + decimal(
        t.second as nat,
        2,
    )
}

/// `HH:MM:SS`.
pub open spec fn clock_text(t: NaiveTime) -> Seq<char> {
    decimal(t.hour as nat, 2) + seq![':'] + decimal(t.minute as nat, 2) + seq![':'] + decimal(
        t.second as nat,
        2,
    )
}

/// Nothing for a whole second; else a point and three, six or nine digits, the fewest
/// that hold the value.
pub open spec fn fraction_text(nano: int) -> Seq<char> {
    if nano == 0 {
        seq![]
    } else if nano % 1_000_000 == 0 {
        seq!['.'] + decimal((nano / 1_000_000) as nat, 3)
    } else if nano % 1000 == 0 {
        seq!['.'] + decimal((nano / 1000) as nat, 6)
    } else {
        seq!['.'] + decimal(nano as nat, 9)
    }
}

/// `+HH:MM` or `-HH:MM`; offset zero is `+00:00`.
pub open spec fn offset_text(minutes: int) -> Seq<char> {
    let a = if minutes < 0 { -minutes } else { minutes };
    seq![if minutes < 0 { '-' } else { '+' }] + decimal((a / 60) as nat, 2) + seq![':'] + decimal(
        (a % 60) as nat,
        2,
    )
}

/// RFC 3339 text of a date and time at a fixed offset.
pub open spec fn rfc3339_text(v: DateTimeFixedOffset) -> Seq<char> {
    date_text(v.local.date) + seq!['T'] + clock_text(v.local.time) + fraction_text(
        v.local.time.nano as int,
    ) + offset_text(v.offset as int)
}

fn push_year(out: &mut String, y: i32)
    ensures
        final(out)@ == old(out)@ + year_text(y as int),
{
    if 0 <= y && y <= 9999 {
        push_decimal(out, y as u64, 4);
    } else if y < 0 {
        proof {
            reveal_strlit("-");
        }
        push_text(out, "-");
        push_decimal(out, (-(y as i64)) as u64, 4);
    } else {
        proof {
            reveal_strlit("+");
        }
        push_text(out, "+");
        push_decimal(out, y as u64, 4);
    }
    assert(final(out)@ =~= old(out)@ + year_text(y as int));
}

/// Writes a date as `YYYY-MM-DD`.
pub fn format_date(d: &NaiveDate) -> (r: String)
    ensures
        r@ == date_text(*d),
{
    let mut out = String::new();
    proof {
        reveal_strlit("-");
    }
    push_year(&mut out, d.year);
    push_text(&mut out, "-");
    push_decimal(&mut out, d.month as u64, 2);
    push_text(&mut out, "-");
    push_decimal(&mut out, d.day as u64, 2);
    assert(out@ =~= date_text(*d));
    out
}

/// Writes a time of day as `H:MM:SS`, the hour unpadded and the sub-second part left out.
pub fn format_time(t: &NaiveTime) -> (r: String)
    ensures
        r@ == time_text(*t),
{
    let mut out = String::new();
    proof {
        reveal_strlit(":");
    }
    push_decimal(&mut out, t.hour as u64, 1);
    push_text(&mut out, ":");
    push_decimal(&mut out, t.minute as u64, 2);
    push_text(&mut out, ":");
    push_decimal(&mut out, t.second as u64, 2);
    assert(out@ =~= time_text(*t));
    out
}

fn push_fraction(out: &mut String, nano: u32)
    ensures
        final(out)@ == old(out)@ + fraction_text(nano as int),
{
    proof {
        reveal_strlit(".");
    }
    if nano == 0 {
    } else if nano % 1_000_000 == 0 {
        push_text(out, ".");
        push_decimal(out, (nano / 1_000_000) as u64, 3);
    } else if nano % 1000 == 0 {
        push_text(out, ".");
        push_decimal(out, (nano / 1000) as u64, 6);
    } else {
        push_text(out, ".");
        push_decimal(out, nano as u64, 9);
    }
    assert(final(out)@ =~= old(out)@ + fraction_text(nano as int));
}

fn push_offset(out: &mut String, minutes: i32)
    ensures
        final(out)@ == old(out)@ + offset_text(minutes as int),
{
    proof {
        reveal_strlit("-");
        reveal_strlit("+");
        reveal_strlit(":");
    }
    let a: i64 = if minutes < 0 { -(minutes as i64) } else { minutes as i64 };
    if minutes < 0 {
        push_text(out, "-");
    } else {
        push_text(out, "+");
    }
    push_decimal(out, (a / 60) as u64, 2);
    push_text(out, ":");
    push_decimal(out, (a % 60) as u64, 2);
    assert(final(out)@ =~= old(out)@ + offset_text(minutes as int));
}

/// Writes a date and time at a fixed offset as RFC 3339 text, keeping the offset.
pub fn format_rfc3339(v: &DateTimeFixedOffset) -> (r: String)
    ensures
        r@ == rfc3339_text(*v),
{
    let mut out = format_date(&v.local.date);
    proof {
        reveal_strlit("T");
        reveal_strlit(":");
    }
    push_text(&mut out, "T");
    push_decimal(&mut out, v.local.time.hour as u64, 2);
    push_text(&mut out, ":");
    push_decimal(&mut out, v.local.time.minute as u64, 2);
    push_text(&mut out, ":");
    push_decimal(&mut out, v.local.time.second as u64, 2);
    push_fraction(&mut out, v.local.time.nano);
    push_offset(&mut out, v.offset);
    assert(out@ =~= rfc3339_text(*v));
    out
}

pub open spec fn digits_at(t: Seq<char>, i: int, n: int) -> bool {
    all_digits(t.subrange(i, i + n))
}

pub open spec fn number_at(t: Seq<char>, i: int, n: int) -> int {
    digits_value(t.subrange(i, i + n))
}

/// The date that `YYYY-MM-DD` text names, if any: exactly four, two and two digits.
pub open spec fn date_of_text(t: Seq<char>) -> Option<NaiveDate> {
    if t.len() == 10 && t[4] == '-' && t[7] == '-' && digits_at(t, 0, 4) && digits_at(t, 5, 2)
        && digits_at(t, 8, 2) {
        let d = NaiveDate {
            year: number_at(t, 0, 4) as i32,
            month: number_at(t, 5, 2) as u32,
            day: number_at(t, 8, 2) as u32,
        };
        if d.wf() {
            Some(d)
        } else {
            None
        }
    } else {
        None
    }
}

/// The time that `H:MM:SS` text names, if any: one or two digits of hour, then exactly two
/// of minute and two of second.
pub open spec fn time_of_text(t: Seq<char>) -> Option<NaiveTime> {
    let h = t.len() - 6;
    if (h == 1 || h == 2) && t[h] == ':' && t[h + 3] == ':' && digits_at(t, 0, h) && digits_at(
        t,
        h + 1,
        2,
    ) && digits_at(t, h + 4, 2) {
        let v = NaiveTime {
            hour: number_at(t, 0, h) as u32,
            minute: number_at(t, h + 1, 2) as u32,
            second: number_at(t, h + 4, 2) as u32,
            nano: 0,
        };
        if v.wf() {
            Some(v)
        } else {
            None
        }
    } else {
        None
    }
}

/// Length of the run of digits in `t` that starts at `i`.
pub open spec fn digit_run(t: Seq<char>, i: int) -> int
    decreases t.len() - i,
{
    if 0 <= i < t.len() && is_digit(t[i]) {
        1 + digit_run(t, i + 1)
    } else {
        0
    }
}

/// Nanoseconds that the digits after a decimal point give: the first nine count.
pub open spec fn nano_of_fraction(f: Seq<char>) -> int {
    let k = if f.len() < 9 { f.len() } else { 9 };
    digits_value(f.subrange(0, k as int) + zeros((9 - k) as nat))
}

/// The offset in minutes that `Z`, `z`, `+HH:MM` or `-HH:MM` names, if any.
pub open spec fn offset_of_text(o: Seq<char>) -> Option<int> {
    if o.len() == 1 && (o[0] == 'Z' || o[0] == 'z') {
        Some(0)
    } else if o.len() == 6 && (o[0] == '+' || o[0] == '-') && o[3] == ':' && digits_at(o, 1, 2)
        && digits_at(o, 4, 2) && number_at(o, 1, 2) < 24 && number_at(o, 4, 2) < 60 {
        let m = number_at(o, 1, 2) * 60 + number_at(o, 4, 2);
        Some(if o[0] == '-' { -m } else { m })
    } else {
        None
    }
}

/// The date, time and offset that RFC 3339 text names, if any.
pub open spec fn rfc3339_of_text(t: Seq<char>) -> Option<DateTimeFixedOffset> {
    if t.len() >= 20 && date_of_text(t.subrange(0, 10)) is Some && (t[10] == 'T' || t[10] == 't')
        && t[13] == ':' && t[16] == ':' && digits_at(t, 11, 2) && digits_at(t, 14, 2) && digits_at(
        t,
        17,
        2,
    ) {
        let dotted = t[19] == '.';
        let run = if dotted { digit_run(t, 20) } else { 0 };
        let rest = if dotted { 20 + run } else { 19 };
        let time = NaiveTime {
            hour: number_at(t, 11, 2) as u32,
            minute: number_at(t, 14, 2) as u32,
            second: number_at(t, 17, 2) as u32,
            nano: if dotted { nano_of_fraction(t.subrange(20, rest)) as u32 } else { 0 },
        };
        let off = offset_of_text(t.subrange(rest, t.len() as int));
        if (!dotted || run >= 1) && off is Some && time.wf() {
            let v = DateTimeFixedOffset {
                local: NaiveDateTime { date: date_of_text(t.subrange(0, 10))->Some_0, time },
                offset: (off->Some_0) as i32,
            };
            if v.wf() {
                Some(v)
            } else {
                None
            }
        } else {
            None
        }
    } else {
        None
    }
}

/// Reads `YYYY-MM-DD` text.
pub fn parse_date(s: &str) -> (r: Option<NaiveDate>)
    ensures
        r == date_of_text(s@),
{
    let n = s.unicode_len();
    if n != 10 {
        return None;
    }
    if s.get_char(4) != '-' || s.get_char(7) != '-' {
        return None;
    }
    let y = match read_digits(s, 0, 4) {
        Some(v) => v,
        None => return None,
    };
    let m = match read_digits(s, 5, 2) {
        Some(v) => v,
        None => return None,
    };
    let d = match read_digits(s, 8, 2) {
        Some(v) => v,
        None => return None,
    };
    NaiveDate::from_ymd_opt(y as i32, m as u32, d as u32)
}

/// Reads `H:MM:SS` text, the hour with one or two digits.
pub fn parse_time(s: &str) -> (r: Option<NaiveTime>)
    ensures
        r == time_of_text(s@),
{
    let n = s.unicode_len();
    if n != 7 && n != 8 {
        return None;
    }
    let h: usize = n - 6;
    if s.get_char(h) != ':' || s.get_char(h + 3) != ':' {
        return None;
    }
    let hour = match read_digits(s, 0, h) {
        Some(v) => v,
        None => return None,
    };
    let minute = match read_digits(s, h + 1, 2) {
        Some(v) => v,
        None => return None,
    };
    let second = match read_digits(s, h + 4, 2) {
        Some(v) => v,
        None => return None,
    };
    NaiveTime::from_hms_opt(hour as u32, minute as u32, second as u32)
}

/// Reads an offset: `Z`, `z`, `+HH:MM` or `-HH:MM`.
fn parse_offset(o: &str) -> (r: Option<i32>)
    ensures
        r matches Some(m) ==> offset_of_text(o@) == Some(m as int),
        r is None ==> offset_of_text(o@) is None,
{
    let n = o.unicode_len();
    if n == 1 {
        let c = o.get_char(0);
        if c == 'Z' || c == 'z' {
            return Some(0);
        }
        return None;
    }
    if n != 6 {
        return None;
    }
    let sign = o.get_char(0);
    if (sign != '+' && sign != '-') || o.get_char(3) != ':' {
        return None;
    }
    let hh = match read_digits(o, 1, 2) {
        Some(v) => v,
        None => return None,
    };
    let mm = match read_digits(o, 4, 2) {
        Some(v) => v,
        None => return None,
    };
    if hh >= 24 || mm >= 60 {
        return None;
    }
    let m: i32 = (hh * 60 + mm) as i32;
    if sign == '-' {
        Some(-m)
    } else {
        Some(m)
    }
}

/// Nanoseconds from the digits of `s` in `start..start + len`, at most nine of them.
fn read_fraction(s: &str, start: usize, len: usize) -> (r: u32)
    requires
        1 <= len,
        start + len <= s@.len(),
        all_digits(s@.subrange(start as int, start + len)),
    ensures
        r == nano_of_fraction(s@.subrange(start as int, start + len)),
        r < 1_000_000_000,
{
    let ghost f = s@.subrange(start as int, start + len);
    let k: usize = if len < 9 { len } else { 9 };
    assert(s@.subrange(start as int, start + k) =~= f.subrange(0, k as int));
    let mut v: u64 = match read_digits(s, start, k) {
        Some(v) => v,
        None => {
            assert(all_digits(f.subrange(0, k as int)));
            0
        },
    };
    let mut j: usize = k;
    while j < 9
        invariant
            k <= j <= 9,
            f == s@.subrange(start as int, start + len),
            v == digits_value(f.subrange(0, k as int) + zeros((j - k) as nat)),
            v < pow10(j as nat),
        decreases 9 - j,
    {
        proof {
            let g = f.subrange(0, k as int) + zeros((j - k) as nat);
            let g1 = f.subrange(0, k as int) + zeros((j + 1 - k) as nat);
            assert(g1.drop_last() =~= g);
            assert(g1.last() == '0');
            crate::text::lemma_pow10_mono(j as nat, 9);
            reveal_with_fuel(pow10, 10);
        }
        v = v * 10;
        j = j + 1;
    }
    proof {
        reveal_with_fuel(pow10, 10);
    }
    v as u32
}

/// Reads RFC 3339 text: date, `T`, time, an optional fraction of a second, and an offset.
pub fn parse_rfc3339(s: &str) -> (r: Option<DateTimeFixedOffset>)
    ensures
        r == rfc3339_of_text(s@),
{
    let ghost t = s@;
    let n = s.unicode_len();
    if n < 20 {
        return None;
    }
    let date = match parse_date(s.substring_char(0, 10)) {
        Some(d) => d,
        None => return None,
    };
    let sep = s.get_char(10);
    if (sep != 'T' && sep != 't') || s.get_char(13) != ':' || s.get_char(16) != ':' {
        return None;
    }
    let hour = match read_digits(s, 11, 2) {
        Some(v) => v,
        None => return None,
    };
    let minute = match read_digits(s, 14, 2) {
        Some(v) => v,
        None => return None,
    };
    let second = match read_digits(s, 17, 2) {
        Some(v) => v,
        None => return None,
    };
    let dotted = s.get_char(19) == '.';
    let mut rest: usize = 19;
    let mut nano: u32 = 0;
    if dotted {
        let mut j: usize = 20;
        while j < n && is_digit_char(s.get_char(j))
            invariant
                20 <= j <= n,
                n == t.len(),
                t == s@,
                digit_run(t, 20) == (j - 20) + digit_run(t, j as int),
                all_digits(t.subrange(20, j as int)),
            decreases n - j,
        {
            assert(t.subrange(20, j + 1) =~= t.subrange(20, j as int).push(t[j as int]));
            j = j + 1;
        }
        if j == 20 {
            return None;
        }
        nano = read_fraction(s, 20, j - 20);
        rest = j;
    }
    let off = match parse_offset(s.substring_char(rest, n)) {
        Some(m) => m,
        None => return None,
    };
    let time = match NaiveTime::from_hms_nano_opt(hour as u32, minute as u32, second as u32, nano) {
        Some(t) => t,
        None => return None,
    };
    DateTimeFixedOffset::new(NaiveDateTime { date, time }, off)
}

fn is_digit_char(c: char) -> (r: bool)
    ensures
        r == is_digit(c),
{
    '0' <= c && c <= '9'
}

pub proof fn lemma_digit_run(t: Seq<char>, i: int, k: int)
    requires
        0 <= i,
        0 <= k,
        i + k <= t.len(),
        all_digits(t.subrange(i, i + k)),
        i + k == t.len() || !is_digit(t[i + k]),
    ensures
        digit_run(t, i) == k,
    decreases k,
{
    if k > 0 {
        assert(is_digit(t.subrange(i, i + k)[0]));
        assert(all_digits(t.subrange(i + 1, i + k))) by {
            assert forall|j: int| 0 <= j < k - 1 implies is_digit(
                #[trigger] t.subrange(i + 1, i + k)[j],
            ) by {
                assert(t.subrange(i + 1, i + k)[j] == t.subrange(i, i + k)[j + 1]);
            }
        }
        lemma_digit_run(t, i + 1, k - 1);
    }
}

/// A date with a four-digit year reads back from its text.
pub proof fn lemma_date_text_round_trip(d: NaiveDate)
    requires
        d.wf(),
        0 <= d.year <= 9999,
    ensures
        date_text(d).len() == 10,
        date_of_text(date_text(d)) == Some(d),
{
    reveal_with_fuel(pow10, 5);
    lemma_decimal(d.year as nat, 4);
    lemma_decimal(d.month as nat, 2);
    lemma_decimal(d.day as nat, 2);
    let t = date_text(d);
    assert(t.subrange(0, 4) =~= decimal(d.year as nat, 4));
    assert(t.subrange(5, 7) =~= decimal(d.month as nat, 2));
    assert(t.subrange(8, 10) =~= decimal(d.day as nat, 2));
}

/// A time of day reads back from its `H:MM:SS` text, the sub-second part aside.
pub proof fn lemma_time_text_round_trip(v: NaiveTime)
    requires
        v.wf(),
    ensures
        time_of_text(time_text(v)) == Some(NaiveTime { nano: 0, ..v }),
{
    reveal_with_fuel(pow10, 3);
    reveal_with_fuel(decimal, 3);
    lemma_decimal(v.hour as nat, 1);
    lemma_decimal(v.minute as nat, 2);
    lemma_decimal(v.second as nat, 2);
    let hd = decimal(v.hour as nat, 1);
    assert(hd.len() == if v.hour < 10 { 1int } else { 2 });
    let h = hd.len() as int;
    let t = time_text(v);
    assert(t.subrange(0, h) =~= hd);
    assert(t.subrange(h + 1, h + 3) =~= decimal(v.minute as nat, 2));
    assert(t.subrange(h + 4, h + 6) =~= decimal(v.second as nat, 2));
}

pub proof fn lemma_offset_text_round_trip(m: int)
    requires
        -1440 < m < 1440,
    ensures
        offset_text(m).len() == 6,
        offset_of_text(offset_text(m)) == Some(m),
        offset_text(m)[0] == '+' || offset_text(m)[0] == '-',
{
    reveal_with_fuel(pow10, 3);
    let a = if m < 0 { -m } else { m };
    lemma_decimal((a / 60) as nat, 2);
    lemma_decimal((a % 60) as nat, 2);
    let o = offset_text(m);
    assert(o.subrange(1, 3) =~= decimal((a / 60) as nat, 2));
    assert(o.subrange(4, 6) =~= decimal((a % 60) as nat, 2));
}

pub proof fn lemma_fraction_text_round_trip(nano: int)
    requires
        0 <= nano < 1_000_000_000,
    ensures
        nano == 0 ==> fraction_text(nano).len() == 0,
        nano != 0 ==> ({
            let f = fraction_text(nano);
            &&& 2 <= f.len() <= 10
            &&& f[0] == '.'
            &&& all_digits(f.subrange(1, f.len() as int))
            &&& nano_of_fraction(f.subrange(1, f.len() as int)) == nano
        }),
{
    reveal_with_fuel(pow10, 10);
    assert(pow10(3) == 1000 && pow10(6) == 1_000_000 && pow10(9) == 1_000_000_000);
    let f = fraction_text(nano);
    if nano == 0 {
    } else if nano % 1_000_000 == 0 {
        let q = nano / 1_000_000;
        lemma_decimal(q as nat, 3);
        let g = f.subrange(1, f.len() as int);
        assert(g =~= decimal(q as nat, 3));
        assert(g.subrange(0, 3) =~= g);
        lemma_digits_value_zeros(g, 6);
    } else if nano % 1000 == 0 {
        let q = nano / 1000;
        assert(q < 1_000_000);
        lemma_decimal(q as nat, 6);
        let g = f.subrange(1, f.len() as int);
        assert(g =~= decimal(q as nat, 6));
        assert(g.subrange(0, 6) =~= g);
        lemma_digits_value_zeros(g, 3);
    } else {
        lemma_decimal(nano as nat, 9);
        let g = f.subrange(1, f.len() as int);
        assert(g =~= decimal(nano as nat, 9));
        assert(g.subrange(0, 9) =~= g);
        lemma_digits_value_zeros(g, 0);
    }
}

/// A date and time at a fixed offset, with a four-digit year, reads back from its RFC 3339
/// text.
pub proof fn lemma_rfc3339_text_round_trip(v: DateTimeFixedOffset)
    requires
        v.wf(),
        0 <= v.local.date.year <= 9999,
    ensures
        rfc3339_of_text(rfc3339_text(v)) == Some(v),
{
    reveal_with_fuel(pow10, 3);
    let d = v.local.date;
    let tm = v.local.time;
    lemma_date_text_round_trip(d);
    lemma_decimal(tm.hour as nat, 2);
    lemma_decimal(tm.minute as nat, 2);
    lemma_decimal(tm.second as nat, 2);
    lemma_offset_text_round_trip(v.offset as int);
    lemma_fraction_text_round_trip(tm.nano as int);
    let dt = date_text(d);
    let c = clock_text(tm);
    let f = fraction_text(tm.nano as int);
    let o = offset_text(v.offset as int);
    let t = rfc3339_text(v);
    assert(t =~= dt + seq!['T'] + c + f + o);
    assert(c.len() == 8);
    assert(t.subrange(0, 10) =~= dt);
    assert(t.subrange(11, 13) =~= decimal(tm.hour as nat, 2));
    assert(t.subrange(14, 16) =~= decimal(tm.minute as nat, 2));
    assert(t.subrange(17, 19) =~= decimal(tm.second as nat, 2));
    let rest: int = 19 + f.len() as int;
    assert(t.subrange(rest, t.len() as int) =~= o);
    assert(t[rest] == o[0]);
    if tm.nano != 0 {
        let k: int = f.len() - 1;
        assert(t.subrange(20, rest) =~= f.subrange(1, f.len() as int));
        lemma_digit_run(t, 20, k);
        assert(t[19] == '.');
    } else {
        assert(t[19] == o[0]);
    }
}

} // verus!
