//! Properties that relate the decoders and encoders of the scalars.
use vstd::prelude::*;

use crate::calendar::{
    lemma_seconds_bounds, lemma_seconds_injective, DateTimeUtc, NaiveDateTime, MAX_TIMESTAMP,
    MIN_TIMESTAMP,
};
use crate::codec::{
    date_of_text, date_text, digits_at, lemma_rfc3339_text_round_trip, rfc3339_of_text,
    rfc3339_text, time_of_text,
};
use crate::scalar::{
    decodes_to, is_numeric_kind, is_utc_of, literal_of, utc_text, DomainValue, ParseError,
    ScalarKind, ScalarToken, WireValue,
};
use crate::text::{decimal, lemma_decimal_of_digits, lemma_digits_value_bounds, pow10};

verus! {

/// RFC 3339 text with an offset decodes to a value whose written form decodes to that same
/// value again: the local date and time, the fraction of a second and the offset are kept,
/// and so is the instant.
pub proof fn law_offset_round_trip(t: Seq<char>)
    requires
        rfc3339_of_text(t) is Some,
    ensures
        rfc3339_of_text(rfc3339_text(rfc3339_of_text(t)->Some_0)) == rfc3339_of_text(t),
{
    let v = rfc3339_of_text(t)->Some_0;
    let dt = t.subrange(0, 10);
    reveal_with_fuel(pow10, 5);
    lemma_digits_value_bounds(dt.subrange(0, 4));
    lemma_rfc3339_text_round_trip(v);
}

/// Whatever offset RFC 3339 text carries, the UTC value decoded from it names the same
/// instant and is written with offset `+00:00`.
pub proof fn law_utc_normalization(t: Seq<char>, u: DateTimeUtc)
    requires
        rfc3339_of_text(t) is Some,
        is_utc_of(u, rfc3339_of_text(t)->Some_0),
    ensures
        u.utc.seconds() == (rfc3339_of_text(t)->Some_0).instant(),
        utc_text(u).len() >= 6,
        utc_text(u).subrange(utc_text(u).len() - 6, utc_text(u).len() as int) == seq![
            '+',
            '0',
            '0',
            ':',
            '0',
            '0',
        ],
{
    reveal_with_fuel(decimal, 3);
    let s = utc_text(u);
    assert(s.subrange(s.len() - 6, s.len() as int) =~= seq!['+', '0', '0', ':', '0', '0']);
}

/// Whole seconds in the supported range decode to a date and time that is written back as
/// exactly those seconds; and every supported date and time is written as seconds that
/// decode.
pub proof fn law_whole_seconds_round_trip(t: i64, r: Option<DomainValue>, dt: NaiveDateTime)
    requires
        decodes_to(ScalarKind::NaiveDateTime, WireValue::Number(t), r),
        dt.wf(),
    ensures
        MIN_TIMESTAMP <= t <= MAX_TIMESTAMP ==> (r matches Some(DomainValue::NaiveDateTime(d))
            && d.seconds() as i64 == t),
        !(MIN_TIMESTAMP <= t <= MAX_TIMESTAMP) ==> r is None,
        MIN_TIMESTAMP <= dt.seconds() <= MAX_TIMESTAMP,
{
    lemma_seconds_bounds(dt);
}

/// A supported date and time with no sub-second part is written as seconds that decode to
/// that very date and time.
pub proof fn law_whole_seconds_resolve_decode(dt: NaiveDateTime, r: Option<DomainValue>)
    requires
        dt.wf(),
        dt.time.nano == 0,
        decodes_to(ScalarKind::NaiveDateTime, WireValue::Number(dt.seconds() as i64), r),
    ensures
        r == Some(DomainValue::NaiveDateTime(dt)),
{
    lemma_seconds_bounds(dt);
    let d = r->Some_0->NaiveDateTime_0;
    lemma_seconds_injective(d, dt);
}

/// Date text is accepted only in the exact shape `YYYY-MM-DD`, and only as the very text
/// that the decoded date is written as.
pub proof fn law_date_strict(t: Seq<char>)
    requires
        date_of_text(t) is Some,
    ensures
        t.len() == 10,
        t[4] == '-' && t[7] == '-',
        digits_at(t, 0, 4) && digits_at(t, 5, 2) && digits_at(t, 8, 2),
        date_text(date_of_text(t)->Some_0) == t,
{
    reveal_with_fuel(pow10, 5);
    lemma_digits_value_bounds(t.subrange(0, 4));
    lemma_decimal_of_digits(t.subrange(0, 4));
    lemma_digits_value_bounds(t.subrange(5, 7));
    lemma_decimal_of_digits(t.subrange(5, 7));
    lemma_digits_value_bounds(t.subrange(8, 10));
    lemma_decimal_of_digits(t.subrange(8, 10));
    let d = date_of_text(t)->Some_0;
    assert(date_text(d) =~= t);
}

/// Time text is accepted only as one or two digits of hour, a colon, two digits of minute, a
/// colon and two digits of second.
pub proof fn law_time_strict(t: Seq<char>)
    requires
        time_of_text(t) is Some,
    ensures
        t.len() == 7 || t.len() == 8,
        ({
            let h = t.len() - 6;
            &&& t[h] == ':' && t[h + 3] == ':'
            &&& digits_at(t, 0, h) && digits_at(t, h + 1, 2) && digits_at(t, h + 4, 2)
        }),
{
}

/// A literal token of the wrong kind for a scalar is refused as such, whatever it holds:
/// no decoding is tried.
pub proof fn law_kind_rejection(k: ScalarKind, token: ScalarToken)
    requires
        if is_numeric_kind(k) {
            !(token is Number)
        } else {
            !(token is String)
        },
    ensures
        literal_of(k, token) == Err::<WireValue, ParseError>(ParseError::UnexpectedToken(token)),
{
}

} // verus!
