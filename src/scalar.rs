//! Scalar coercion: each temporal type as a named scalar with its wire value, its literal
//! token and its decoder.
use vstd::prelude::*;

use crate::calendar::{DateTimeFixedOffset, DateTimeUtc, NaiveDate, NaiveDateTime, NaiveTime};
use crate::codec::{
    date_of_text, date_text, format_date, format_rfc3339, format_time, parse_date, parse_rfc3339,
    parse_time, rfc3339_of_text, rfc3339_text, time_of_text, time_text,
};

verus! {

/// A wire-level value. A number is held as its whole seconds, the fraction cut off.
#[derive(Clone, Debug, PartialEq, Eq)]
pub enum WireValue {
    String(String),
    Number(i64),
}

/// A scalar literal of the query text: a string, a number, or anything else.
#[derive(Clone, Debug, PartialEq, Eq)]
pub enum ScalarToken {
    String(String),
    Number(i64),
    Other(String),
}

/// Why a literal could not be bound to a scalar.
#[derive(Clone, Debug, PartialEq, Eq)]
pub enum ParseError {
    /// The token is not of the kind that the scalar is written in.
    UnexpectedToken(ScalarToken),
    /// The token has the right kind, but its content names no value of the scalar.
    InvalidValue(ScalarToken),
}

/// Which of the two wire kinds a token has, if either.
#[derive(Clone, Copy, Debug, PartialEq, Eq, Structural)]
pub enum TokenClass {
    String,
    Number,
    Other,
}

fn copy_token(token: &ScalarToken) -> (r: ScalarToken)
    ensures
        r == *token,
{
    match token {
        ScalarToken::String(s) => ScalarToken::String(s.clone()),
        ScalarToken::Number(n) => ScalarToken::Number(*n),
        ScalarToken::Other(s) => ScalarToken::Other(s.clone()),
    }
}

/// Classifies a literal token as a string, a number or neither.
pub fn classify(token: &ScalarToken) -> (r: TokenClass)
    ensures
        r == token_class(*token),
{
    match token {
        ScalarToken::String(_) => TokenClass::String,
        ScalarToken::Number(_) => TokenClass::Number,
        ScalarToken::Other(_) => TokenClass::Other,
    }
}

pub open spec fn token_class(token: ScalarToken) -> TokenClass {
    match token {
        ScalarToken::String(_) => TokenClass::String,
        ScalarToken::Number(_) => TokenClass::Number,
        ScalarToken::Other(_) => TokenClass::Other,
    }
}

/// A string literal boxed unchanged as a wire string; any other token refused.
pub open spec fn string_literal(token: ScalarToken) -> Result<WireValue, ParseError> {
    match token {
        ScalarToken::String(s) => Ok(WireValue::String(s)),
        _ => Err(ParseError::UnexpectedToken(token)),
    }
}

/// A numeric literal boxed unchanged as a wire number; any other token refused.
pub open spec fn number_literal(token: ScalarToken) -> Result<WireValue, ParseError> {
    match token {
        ScalarToken::Number(n) => Ok(WireValue::Number(n)),
        _ => Err(ParseError::UnexpectedToken(token)),
    }
}

fn box_string_literal(token: ScalarToken) -> (r: Result<WireValue, ParseError>)
    ensures
        r == string_literal(token),
{
    match token {
        ScalarToken::String(s) => Ok(WireValue::String(s)),
        _ => Err(ParseError::UnexpectedToken(token)),
    }
}

fn box_number_literal(token: ScalarToken) -> (r: Result<WireValue, ParseError>)
    ensures
        r == number_literal(token),
{
    match token {
        ScalarToken::Number(n) => Ok(WireValue::Number(n)),
        _ => Err(ParseError::UnexpectedToken(token)),
    }
}

/// The RFC 3339 text of an instant in UTC: offset `+00:00`.
pub open spec fn utc_text(u: DateTimeUtc) -> Seq<char> {
    rfc3339_text(DateTimeFixedOffset { local: u.utc, offset: 0 })
}

/// `u` is the UTC form of `v`: the same instant and the same fraction of a second.
pub open spec fn is_utc_of(u: DateTimeUtc, v: DateTimeFixedOffset) -> bool {
    &&& u.wf()
    &&& u.utc.seconds() == v.instant()
    &&& u.utc.time.nano == v.local.time.nano
}

impl DateTimeFixedOffset {
    /// The wire value: RFC 3339 text with the offset kept.
    pub fn resolve(&self) -> (r: WireValue)
        ensures
            r matches WireValue::String(s) && s@ == rfc3339_text(*self),
    {
        WireValue::String(format_rfc3339(self))
    }

    /// Reads a wire string as RFC 3339 text.
    pub fn from_input_value(v: &WireValue) -> (r: Option<DateTimeFixedOffset>)
        ensures
            r == (match *v {
                WireValue::String(s) => rfc3339_of_text(s@),
                WireValue::Number(_) => None,
            }),
    {
        match v {
            WireValue::String(s) => parse_rfc3339(s.as_str()),
            WireValue::Number(_) => None,
        }
    }

    /// Accepts a string literal only.
    pub fn from_str(token: ScalarToken) -> (r: Result<WireValue, ParseError>)
        ensures
            r == string_literal(token),
    {
        box_string_literal(token)
    }
}

impl DateTimeUtc {
    /// The wire value: RFC 3339 text at offset `+00:00`.
    pub fn resolve(&self) -> (r: WireValue)
        ensures
            r matches WireValue::String(s) && s@ == utc_text(*self),
    {
        WireValue::String(format_rfc3339(&DateTimeFixedOffset { local: self.utc, offset: 0 }))
    }

    /// Reads a wire string as RFC 3339 text, at any offset, and moves it to UTC.
    pub fn from_input_value(v: &WireValue) -> (r: Option<DateTimeUtc>)
        ensures
            r is Some <==> (*v matches WireValue::String(s) && rfc3339_of_text(s@) is Some),
            r matches Some(u) ==> (*v matches WireValue::String(s) && is_utc_of(
                u,
                rfc3339_of_text(s@)->Some_0,
            )),
    {
        match v {
            WireValue::String(s) => match parse_rfc3339(s.as_str()) {
                Some(d) => Some(d.to_utc()),
                None => None,
            },
            WireValue::Number(_) => None,
        }
    }

    /// Accepts a string literal only.
    pub fn from_str(token: ScalarToken) -> (r: Result<WireValue, ParseError>)
        ensures
            r == string_literal(token),
    {
        box_string_literal(token)
    }
}

impl NaiveDate {
    /// The wire value: `YYYY-MM-DD`.
    pub fn resolve(&self) -> (r: WireValue)
        ensures
            r matches WireValue::String(s) && s@ == date_text(*self),
    {
        WireValue::String(format_date(self))
    }

    /// Reads a wire string as `YYYY-MM-DD`.
    pub fn from_input_value(v: &WireValue) -> (r: Option<NaiveDate>)
        ensures
            r == (match *v {
                WireValue::String(s) => date_of_text(s@),
                WireValue::Number(_) => None,
            }),
    {
        match v {
            WireValue::String(s) => parse_date(s.as_str()),
            WireValue::Number(_) => None,
        }
    }

    /// Accepts a string literal only.
    pub fn from_str(token: ScalarToken) -> (r: Result<WireValue, ParseError>)
        ensures
            r == string_literal(token),
    {
        box_string_literal(token)
    }
}

impl NaiveTime {
    /// The wire value: `H:MM:SS`, the hour unpadded.
    pub fn resolve(&self) -> (r: WireValue)
        ensures
            r matches WireValue::String(s) && s@ == time_text(*self),
    {
        WireValue::String(format_time(self))
    }

    /// Reads a wire string as `H:MM:SS`.
    pub fn from_input_value(v: &WireValue) -> (r: Option<NaiveTime>)
        ensures
            r == (match *v {
                WireValue::String(s) => time_of_text(s@),
                WireValue::Number(_) => None,
            }),
    {
        match v {
            WireValue::String(s) => parse_time(s.as_str()),
            WireValue::Number(_) => None,
        }
    }

    /// Accepts a string literal only.
    pub fn from_str(token: ScalarToken) -> (r: Result<WireValue, ParseError>)
        ensures
            r == string_literal(token),
    {
        box_string_literal(token)
    }
}

impl NaiveDateTime {
    /// The wire value: whole seconds since the epoch; the sub-second part is lost.
    pub fn resolve(&self) -> (r: WireValue)
        requires
            self.wf(),
        ensures
            r == WireValue::Number(self.seconds() as i64),
    {
        WireValue::Number(self.timestamp())
    }

    /// Reads a wire number as whole seconds since the epoch.
    pub fn from_input_value(v: &WireValue) -> (r: Option<NaiveDateTime>)
        ensures
            r is Some <==> (*v matches WireValue::Number(t) && crate::calendar::MIN_TIMESTAMP <= t
                <= crate::calendar::MAX_TIMESTAMP),
            r matches Some(dt) ==> (*v matches WireValue::Number(t) && dt.wf() && dt.seconds() == t
                && dt.time.nano == 0),
    {
        match v {
            WireValue::Number(t) => NaiveDateTime::from_timestamp_opt(*t, 0),
            WireValue::String(_) => None,
        }
    }

    /// Accepts a numeric literal only.
    pub fn from_str(token: ScalarToken) -> (r: Result<WireValue, ParseError>)
        ensures
            r == number_literal(token),
    {
        box_number_literal(token)
    }
}

/// The temporal types that are exposed as scalars.
#[derive(Clone, Copy, Debug, PartialEq, Eq, Structural)]
pub enum ScalarKind {
    DateTimeFixedOffset,
    DateTimeUtc,
    NaiveDate,
    NaiveTime,
    NaiveDateTime,
}

/// A value of one of the temporal scalars.
#[derive(Clone, Copy, Debug, PartialEq, Eq, Structural)]
pub enum DomainValue {
    DateTimeFixedOffset(DateTimeFixedOffset),
    DateTimeUtc(DateTimeUtc),
    NaiveDate(NaiveDate),
    NaiveTime(NaiveTime),
    NaiveDateTime(NaiveDateTime),
}

pub open spec fn kind_name(k: ScalarKind) -> Seq<char> {
    match k {
        ScalarKind::DateTimeFixedOffset => "DateTimeFixedOffset"@,
        ScalarKind::DateTimeUtc => "DateTimeUtc"@,
        ScalarKind::NaiveDate => "NaiveDate"@,
        ScalarKind::NaiveTime => "NaiveTime"@,
        ScalarKind::NaiveDateTime => "NaiveDateTime"@,
    }
}

pub open spec fn kind_description(k: ScalarKind) -> Seq<char> {
    match k {
        ScalarKind::DateTimeFixedOffset => "DateTime"@,
        ScalarKind::DateTimeUtc => "DateTime"@,
        ScalarKind::NaiveDate => "NaiveDate"@,
        ScalarKind::NaiveTime => "NaiveTime"@,
        ScalarKind::NaiveDateTime => "NaiveDateTime"@,
    }
}

/// The scalar is written as a number on the wire; the others are written as strings.
pub open spec fn is_numeric_kind(k: ScalarKind) -> bool {
    k == ScalarKind::NaiveDateTime
}

/// The literal step of a scalar: the token boxed unchanged if its kind fits.
pub open spec fn literal_of(k: ScalarKind, token: ScalarToken) -> Result<WireValue, ParseError> {
    if is_numeric_kind(k) {
        number_literal(token)
    } else {
        string_literal(token)
    }
}

/// `r` is what decoding the wire value `w` as scalar `k` gives.
pub open spec fn decodes_to(k: ScalarKind, w: WireValue, r: Option<DomainValue>) -> bool {
    match k {
        ScalarKind::DateTimeFixedOffset => r == (match w {
            WireValue::String(s) => match rfc3339_of_text(s@) {
                Some(v) => Some(DomainValue::DateTimeFixedOffset(v)),
                None => None,
            },
            WireValue::Number(_) => None,
        }),
        ScalarKind::DateTimeUtc => match w {
            WireValue::String(s) => match rfc3339_of_text(s@) {
                Some(v) => r matches Some(DomainValue::DateTimeUtc(u)) && is_utc_of(u, v),
                None => r is None,
            },
            WireValue::Number(_) => r is None,
        },
        ScalarKind::NaiveDate => r == (match w {
            WireValue::String(s) => match date_of_text(s@) {
                Some(v) => Some(DomainValue::NaiveDate(v)),
                None => None,
            },
            WireValue::Number(_) => None,
        }),
        ScalarKind::NaiveTime => r == (match w {
            WireValue::String(s) => match time_of_text(s@) {
                Some(v) => Some(DomainValue::NaiveTime(v)),
                None => None,
            },
            WireValue::Number(_) => None,
        }),
        ScalarKind::NaiveDateTime => match w {
            WireValue::Number(t) => if crate::calendar::MIN_TIMESTAMP <= t
                <= crate::calendar::MAX_TIMESTAMP {
                r matches Some(DomainValue::NaiveDateTime(dt)) && dt.wf() && dt.seconds() == t
                    && dt.time.nano == 0
            } else {
                r is None
            },
            WireValue::String(_) => r is None,
        },
    }
}

/// Whether two texts are the same, character for character.
fn same_text(a: &str, b: &str) -> (r: bool)
    ensures
        r == (a@ == b@),
{
    let n = a.unicode_len();
    if n != b.unicode_len() {
        return false;
    }
    let mut i: usize = 0;
    while i < n
        invariant
            i <= n,
            n == a@.len(),
            n == b@.len(),
            forall|j: int| 0 <= j < i ==> a@[j] == b@[j],
        decreases n - i,
    {
        if a.get_char(i) != b.get_char(i) {
            return false;
        }
        i = i + 1;
    }
    assert(a@ =~= b@);
    true
}

impl ScalarKind {
    /// The scalar that appears in a schema under the given name, if any.
    pub fn from_name(name: &str) -> (r: Option<ScalarKind>)
        ensures
            r matches Some(k) ==> kind_name(k) == name@,
            r is None ==> forall|k: ScalarKind| kind_name(k) != name@,
    {
        if same_text(name, "DateTimeFixedOffset") {
            Some(ScalarKind::DateTimeFixedOffset)
        } else if same_text(name, "DateTimeUtc") {
            Some(ScalarKind::DateTimeUtc)
        } else if same_text(name, "NaiveDate") {
            Some(ScalarKind::NaiveDate)
        } else if same_text(name, "NaiveTime") {
            Some(ScalarKind::NaiveTime)
        } else if same_text(name, "NaiveDateTime") {
            Some(ScalarKind::NaiveDateTime)
        } else {
            None
        }
    }

    /// The name under which the scalar appears in a schema.
    pub fn name(&self) -> (r: &'static str)
        ensures
            r@ == kind_name(*self),
    {
        match self {
            ScalarKind::DateTimeFixedOffset => "DateTimeFixedOffset",
            ScalarKind::DateTimeUtc => "DateTimeUtc",
            ScalarKind::NaiveDate => "NaiveDate",
            ScalarKind::NaiveTime => "NaiveTime",
            ScalarKind::NaiveDateTime => "NaiveDateTime",
        }
    }

    /// The scalar's description in a schema.
    pub fn description(&self) -> (r: &'static str)
        ensures
            r@ == kind_description(*self),
    {
        match self {
            ScalarKind::DateTimeFixedOffset => "DateTime",
            ScalarKind::DateTimeUtc => "DateTime",
            ScalarKind::NaiveDate => "NaiveDate",
            ScalarKind::NaiveTime => "NaiveTime",
            ScalarKind::NaiveDateTime => "NaiveDateTime",
        }
    }

    /// Boxes a literal token as a wire value, if its kind fits the scalar.
    pub fn parse_literal(&self, token: ScalarToken) -> (r: Result<WireValue, ParseError>)
        ensures
            r == literal_of(*self, token),
    {
        match self {
            ScalarKind::DateTimeFixedOffset => DateTimeFixedOffset::from_str(token),
            ScalarKind::DateTimeUtc => DateTimeUtc::from_str(token),
            ScalarKind::NaiveDate => NaiveDate::from_str(token),
            ScalarKind::NaiveTime => NaiveTime::from_str(token),
            ScalarKind::NaiveDateTime => NaiveDateTime::from_str(token),
        }
    }

    /// Decodes a wire value into a value of the scalar.
    pub fn decode(&self, w: &WireValue) -> (r: Option<DomainValue>)
        ensures
            decodes_to(*self, *w, r),
    {
        match self {
            ScalarKind::DateTimeFixedOffset => match DateTimeFixedOffset::from_input_value(w) {
                Some(v) => Some(DomainValue::DateTimeFixedOffset(v)),
                None => None,
            },
            ScalarKind::DateTimeUtc => match DateTimeUtc::from_input_value(w) {
                Some(v) => Some(DomainValue::DateTimeUtc(v)),
                None => None,
            },
            ScalarKind::NaiveDate => match NaiveDate::from_input_value(w) {
                Some(v) => Some(DomainValue::NaiveDate(v)),
                None => None,
            },
            ScalarKind::NaiveTime => match NaiveTime::from_input_value(w) {
                Some(v) => Some(DomainValue::NaiveTime(v)),
                None => None,
            },
            ScalarKind::NaiveDateTime => match NaiveDateTime::from_input_value(w) {
                Some(v) => Some(DomainValue::NaiveDateTime(v)),
                None => None,
            },
        }
    }

    /// Binds a variable's wire value to the scalar.
    pub fn from_variable(&self, w: &WireValue) -> (r: Option<DomainValue>)
        ensures
            decodes_to(*self, *w, r),
    {
        self.decode(w)
    }

    /// Binds a literal token to the scalar: a token of the wrong kind is refused before any
    /// decoding; a token whose content decodes to nothing is refused as an invalid value.
    pub fn from_literal(&self, token: ScalarToken) -> (r: Result<DomainValue, ParseError>)
        ensures
            literal_of(*self, token) is Err ==> r == Err::<DomainValue, ParseError>(
                ParseError::UnexpectedToken(token),
            ),
            literal_of(*self, token) matches Ok(w) ==> (exists|d: Option<DomainValue>|
                decodes_to(*self, w, d) && r == (match d {
                    Some(v) => Ok(v),
                    None => Err(ParseError::InvalidValue(token)),
                })),
    {
        let kept = copy_token(&token);
        match self.parse_literal(token) {
            Err(e) => Err(e),
            Ok(w) => {
                let d = self.decode(&w);
                match d {
                    Some(v) => Ok(v),
                    None => Err(ParseError::InvalidValue(kept)),
                }
            },
        }
    }
}

impl DomainValue {
    pub open spec fn wf(self) -> bool {
        match self {
            DomainValue::DateTimeFixedOffset(v) => v.wf(),
            DomainValue::DateTimeUtc(v) => v.wf(),
            DomainValue::NaiveDate(v) => v.wf(),
            DomainValue::NaiveTime(v) => v.wf(),
            DomainValue::NaiveDateTime(v) => v.wf(),
        }
    }

    pub open spec fn kind_of(self) -> ScalarKind {
        match self {
            DomainValue::DateTimeFixedOffset(_) => ScalarKind::DateTimeFixedOffset,
            DomainValue::DateTimeUtc(_) => ScalarKind::DateTimeUtc,
            DomainValue::NaiveDate(_) => ScalarKind::NaiveDate,
            DomainValue::NaiveTime(_) => ScalarKind::NaiveTime,
            DomainValue::NaiveDateTime(_) => ScalarKind::NaiveDateTime,
        }
    }

    /// Whether the value is in range for its scalar.
    pub fn is_valid(&self) -> (r: bool)
        ensures
            r == self.wf(),
    {
        match self {
            DomainValue::DateTimeFixedOffset(v) => v.is_valid(),
            DomainValue::DateTimeUtc(v) => v.is_valid(),
            DomainValue::NaiveDate(v) => v.is_valid(),
            DomainValue::NaiveTime(v) => v.is_valid(),
            DomainValue::NaiveDateTime(v) => v.is_valid(),
        }
    }

    /// The scalar that the value belongs to.
    pub fn kind(&self) -> (r: ScalarKind)
        ensures
            r == self.kind_of(),
    {
        match self {
            DomainValue::DateTimeFixedOffset(_) => ScalarKind::DateTimeFixedOffset,
            DomainValue::DateTimeUtc(_) => ScalarKind::DateTimeUtc,
            DomainValue::NaiveDate(_) => ScalarKind::NaiveDate,
            DomainValue::NaiveTime(_) => ScalarKind::NaiveTime,
            DomainValue::NaiveDateTime(_) => ScalarKind::NaiveDateTime,
        }
    }

    /// The wire value of the value, in its scalar's format.
    pub fn resolve(&self) -> (r: WireValue)
        requires
            self.wf(),
        ensures
            match *self {
                DomainValue::DateTimeFixedOffset(v) => r matches WireValue::String(s) && s@
                    == rfc3339_text(v),
                DomainValue::DateTimeUtc(v) => r matches WireValue::String(s) && s@ == utc_text(v),
                DomainValue::NaiveDate(v) => r matches WireValue::String(s) && s@ == date_text(v),
                DomainValue::NaiveTime(v) => r matches WireValue::String(s) && s@ == time_text(v),
                DomainValue::NaiveDateTime(v) => r == WireValue::Number(v.seconds() as i64),
            },
    {
        match self {
            DomainValue::DateTimeFixedOffset(v) => v.resolve(),
            DomainValue::DateTimeUtc(v) => v.resolve(),
            DomainValue::NaiveDate(v) => v.resolve(),
            DomainValue::NaiveTime(v) => v.resolve(),
            DomainValue::NaiveDateTime(v) => v.resolve(),
        }
    }
}

} // verus!
