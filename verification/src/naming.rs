//! Compound names: a fourteen-digit UTC timestamp, an underscore and the
//! short name of the migration.

use vstd::prelude::*;
use vstd::string::*;
use chrono::NaiveDateTime;
use crate::text::{chars_of, joined};

verus! {

/// Why a compound name was refused.
#[derive(Debug, PartialEq, Eq)]
pub enum NameError {
    /// The compound name holds no underscore.
    MissingUnderscore { compound_name: String },
    /// What stands before the first underscore is not fourteen digits.
    MalformedTimestamp { timestamp: String },
    /// The fourteen digits are no date and time; `reason` says why.
    InvalidTimestamp { timestamp: String, reason: String },
}

/// What a [`NameError`] holds, as plain text.
pub enum NameErrorView {
    MissingUnderscore { compound_name: Seq<char> },
    MalformedTimestamp { timestamp: Seq<char> },
    InvalidTimestamp { timestamp: Seq<char>, reason: Seq<char> },
}

impl View for NameError {
    type V = NameErrorView;

    open spec fn view(&self) -> NameErrorView {
        match self {
            NameError::MissingUnderscore { compound_name } => NameErrorView::MissingUnderscore {
                compound_name: compound_name@,
            },
            NameError::MalformedTimestamp { timestamp } => NameErrorView::MalformedTimestamp {
                timestamp: timestamp@,
            },
            NameError::InvalidTimestamp { timestamp, reason } => NameErrorView::InvalidTimestamp {
                timestamp: timestamp@,
                reason: reason@,
            },
        }
    }
}

impl NameErrorView {
    /// The message that reports the error.
    pub open spec fn message(self) -> Seq<char> {
        match self {
            NameErrorView::MissingUnderscore { compound_name } =>
                "invalid migration name (missing '_'): "@ + compound_name,
            NameErrorView::MalformedTimestamp { timestamp } => "failed to parse timestamp "@
                + timestamp + ": expected 14 digits"@,
            NameErrorView::InvalidTimestamp { timestamp, reason } => "failed to parse timestamp "@
                + timestamp + ": "@ + reason,
        }
    }
}

impl NameError {
    /// The message that reports the error.
    pub fn message(&self) -> (text: String)
        ensures
            text@ == self@.message(),
    {
        match self {
            NameError::MissingUnderscore { compound_name } => joined(
                "invalid migration name (missing '_'): ",
                compound_name.as_str(),
            ),
            NameError::MalformedTimestamp { timestamp } => {
                let mut text = joined("failed to parse timestamp ", timestamp.as_str());
                text.append(": expected 14 digits");
                text
            },
            NameError::InvalidTimestamp { timestamp, reason } => {
                let mut text = joined("failed to parse timestamp ", timestamp.as_str());
                text.append(": ");
                text.append(reason.as_str());
                text
            },
        }
    }
}

/// The format of the timestamp in a compound name.
pub open spec fn timestamp_format() -> Seq<char> {
    "%Y%m%d%H%M%S"@
}

/// Why the text `text` is no date and time in the format `format`, or `None`
/// where it is one.
pub uninterp spec fn datetime_rejection(text: Seq<char>, format: Seq<char>) -> Option<Seq<char>>;

/// What a check of a timestamp returned, as plain text.
pub open spec fn rejection(verdict: Result<(), String>) -> Option<Seq<char>> {
    match verdict {
        Ok(_) => None,
        Err(reason) => Some(reason@),
    }
}

/// Calls `NaiveDateTime::parse_from_str` of the crate `chrono`. Trusted:
/// whether the call accepts `text` under `format`, and the message of its
/// error where it does not, depend on the two texts alone.
#[verifier::external_body]
fn parse_datetime(text: &str, format: &str) -> (res: Result<(), String>)
    ensures
        rejection(res) == datetime_rejection(text@, format@),
{
    match NaiveDateTime::parse_from_str(text, format) {
        Ok(_) => Ok(()),
        Err(e) => Err(e.to_string()),
    }
}

/// The position of the first underscore of `s`, or the length of `s` where
/// it has none.
pub open spec fn underscore_index(s: Seq<char>) -> int
    decreases s.len(),
{
    if s.len() == 0 || s[0] == '_' {
        0
    } else {
        1 + underscore_index(s.drop_first())
    }
}

/// What stands before the first underscore of the compound name.
pub open spec fn timestamp_part(compound_name: Seq<char>) -> Seq<char> {
    compound_name.take(underscore_index(compound_name))
}

/// What follows the first underscore of the compound name.
pub open spec fn name_part(compound_name: Seq<char>) -> Seq<char> {
    compound_name.skip(underscore_index(compound_name) + 1)
}

/// Whether `c` is one of the digits `0` to `9`.
pub open spec fn is_digit(c: char) -> bool {
    '0' <= c <= '9'
}

/// Whether `s` is fourteen digits.
pub open spec fn is_timestamp_shaped(s: Seq<char>) -> bool {
    s.len() == 14 && forall|i: int| 0 <= i < s.len() ==> is_digit(#[trigger] s[i])
}

/// The short name that the compound name gives, or why it gives none, where
/// `verdict` says why its timestamp is no date and time, if it is none.
pub open spec fn short_name(compound_name: Seq<char>, verdict: Option<Seq<char>>) -> Result<
    Seq<char>,
    NameErrorView,
> {
    let timestamp = timestamp_part(compound_name);
    if underscore_index(compound_name) >= compound_name.len() {
        Err(NameErrorView::MissingUnderscore { compound_name })
    } else if !is_timestamp_shaped(timestamp) {
        Err(NameErrorView::MalformedTimestamp { timestamp })
    } else {
        match verdict {
            Some(reason) => Err(NameErrorView::InvalidTimestamp { timestamp, reason }),
            None => Ok(name_part(compound_name)),
        }
    }
}

/// What a call that named a migration returned, as plain text.
pub open spec fn named(res: Result<String, NameError>) -> Result<Seq<char>, NameErrorView> {
    match res {
        Ok(name) => Ok(name@),
        Err(e) => Err(e@),
    }
}

/// The position of the first underscore among `chars`.
fn find_underscore(chars: &Vec<char>) -> (at: usize)
    ensures
        at == underscore_index(chars@),
        at <= chars@.len(),
{
    let mut i: usize = 0;
    assert(chars@.skip(0) =~= chars@);
    while i < chars.len()
        invariant
            i <= chars@.len(),
            underscore_index(chars@) == i + underscore_index(chars@.skip(i as int)),
        decreases chars@.len() - i,
    {
        assert(chars@.skip(i as int)[0] == chars@[i as int]);
        if chars[i] == '_' {
            return i;
        }
        assert(chars@.skip(i as int).drop_first() =~= chars@.skip(i + 1));
        i += 1;
    }
    i
}

/// Whether the first `upto` of `chars` are fourteen digits.
fn timestamp_shaped(chars: &Vec<char>, upto: usize) -> (r: bool)
    requires
        upto <= chars@.len(),
    ensures
        r == is_timestamp_shaped(chars@.take(upto as int)),
{
    if upto != 14 {
        return false;
    }
    let ghost head = chars@.take(upto as int);
    let mut i: usize = 0;
    while i < upto
        invariant
            i <= upto <= chars@.len(),
            upto == 14,
            head == chars@.take(upto as int),
            forall|k: int| 0 <= k < i ==> is_digit(#[trigger] head[k]),
        decreases upto - i,
    {
        let c = chars[i];
        assert(head[i as int] == c);
        if !('0' <= c && c <= '9') {
            return false;
        }
        i += 1;
    }
    true
}

/// What stands before the first underscore of `compound_name`, or `None`
/// where it holds no underscore.
pub fn timestamp_of(compound_name: &str) -> (res: Option<String>)
    ensures
        res is Some <==> underscore_index(compound_name@) < compound_name@.len(),
        res matches Some(timestamp) ==> timestamp@ == timestamp_part(compound_name@),
{
    let chars = chars_of(compound_name);
    let at = find_underscore(&chars);
    if at >= chars.len() {
        None
    } else {
        Some(compound_name.substring_char(0, at).to_owned())
    }
}

/// The short name of a migration, from its compound name and from what the
/// check of its timestamp said.
pub fn resolve_name(compound_name: &str, verdict: Result<(), String>) -> (res: Result<
    String,
    NameError,
>)
    ensures
        named(res) == short_name(compound_name@, rejection(verdict)),
{
    let chars = chars_of(compound_name);
    let at = find_underscore(&chars);
    if at >= chars.len() {
        return Err(NameError::MissingUnderscore { compound_name: compound_name.to_owned() });
    }
    let timestamp = compound_name.substring_char(0, at).to_owned();
    if !timestamp_shaped(&chars, at) {
        return Err(NameError::MalformedTimestamp { timestamp });
    }
    match verdict {
        Err(reason) => Err(NameError::InvalidTimestamp { timestamp, reason }),
        Ok(_) => Ok(compound_name.substring_char(at + 1, chars.len()).to_owned()),
    }
}

/// The short name of the migration with the given compound name. The
/// compound name is refused where it holds no underscore, where what stands
/// before the first underscore is not fourteen digits, and where those digits
/// are no date and time.
pub fn from_compound_name(compound_name: &str) -> (res: Result<String, NameError>)
    ensures
        named(res) == short_name(
            compound_name@,
            datetime_rejection(timestamp_part(compound_name@), timestamp_format()),
        ),
{
    let verdict = match timestamp_of(compound_name) {
        Some(timestamp) => parse_datetime(timestamp.as_str(), "%Y%m%d%H%M%S"),
        None => Ok(()),
    };
    resolve_name(compound_name, verdict)
}

} // verus!
