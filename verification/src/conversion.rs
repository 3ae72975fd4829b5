//! Conversion rules: how a byte string is turned into a typed value.

use vstd::prelude::*;
use vstd::utf8::encode_utf8;
use crate::error::{Error, ErrorView};
use crate::expression::{result_view, Outcome};
use crate::text::{contains_bytes, occurs};
use crate::time::{instant_read, utc_reading, zoned_reading, Timestamp};
use crate::value::{Value, ValueView};

verus! {

/// The text that `String::from_utf8_lossy` makes of `bytes`.
pub uninterp spec fn lossy_text(bytes: Seq<u8>) -> Seq<char>;

/// `String::from_utf8_lossy`: the bytes as text, with a replacement
/// character in place of what is not UTF-8.
#[verifier::external_body]
pub(crate) fn lossy(bytes: &[u8]) -> (s: String)
    ensures
        s@ == lossy_text(bytes@),
{
    String::from_utf8_lossy(bytes).into_owned()
}

/// Whether a timestamp format, given by its UTF-8 bytes, asks for a time
/// zone: whether one of `%Z`, `%z`, `%:z`, `%#z` and `%+` stands in it.
pub open spec fn names_zone(format: Seq<u8>) -> bool {
    occurs(format, seq![37u8, 90u8]) || occurs(format, seq![37u8, 122u8]) || occurs(
        format,
        seq![37u8, 58u8, 122u8],
    ) || occurs(format, seq![37u8, 35u8, 122u8]) || occurs(format, seq![37u8, 43u8])
}

/// Whether the timestamp format asks for a time zone.
pub fn format_has_zone(format: &str) -> (r: bool)
    ensures
        r == names_zone(encode_utf8(format@)),
{
    let hay = format.as_bytes();
    let upper: Vec<u8> = vec![37u8, 90u8];
    let lower: Vec<u8> = vec![37u8, 122u8];
    let colon: Vec<u8> = vec![37u8, 58u8, 122u8];
    let hash: Vec<u8> = vec![37u8, 35u8, 122u8];
    let plus: Vec<u8> = vec![37u8, 43u8];
    proof {
        assert(upper@ =~= seq![37u8, 90u8]);
        assert(lower@ =~= seq![37u8, 122u8]);
        assert(colon@ =~= seq![37u8, 58u8, 122u8]);
        assert(hash@ =~= seq![37u8, 35u8, 122u8]);
        assert(plus@ =~= seq![37u8, 43u8]);
    }
    contains_bytes(hay, upper.as_slice()) || contains_bytes(hay, lower.as_slice())
        || contains_bytes(hay, colon.as_slice()) || contains_bytes(hay, hash.as_slice())
        || contains_bytes(hay, plus.as_slice())
}

/// The mathematical content of a [`Conversion`].
pub enum ConversionView {
    TimestampFmt(Seq<char>),
    TimestampTzFmt(Seq<char>),
}

/// A rule that turns bytes into a timestamp.
#[derive(Debug, PartialEq, Eq)]
pub enum Conversion {
    /// Read with a format that names no time zone; the time is UTC.
    TimestampFmt(String),
    /// Read with a format that names a time zone.
    TimestampTzFmt(String),
}

impl View for Conversion {
    type V = ConversionView;

    open spec fn view(&self) -> ConversionView {
        match self {
            Conversion::TimestampFmt(f) => ConversionView::TimestampFmt(f@),
            Conversion::TimestampTzFmt(f) => ConversionView::TimestampTzFmt(f@),
        }
    }
}

/// What every specifier of a timestamp conversion begins with.
pub open spec fn timestamp_prefix() -> Seq<char> {
    seq!['t', 'i', 'm', 'e', 's', 't', 'a', 'm', 'p', '|']
}

/// The rule for reading timestamps with `format`.
pub open spec fn rule_for(format: Seq<char>) -> ConversionView {
    if names_zone(encode_utf8(format)) {
        ConversionView::TimestampTzFmt(format)
    } else {
        ConversionView::TimestampFmt(format)
    }
}

/// The rule that a specifier names. A specifier is `timestamp|` followed
/// by a format; anything else names no rule.
pub open spec fn rule_named(specifier: Seq<char>) -> Result<ConversionView, ErrorView> {
    if specifier.len() >= 10 && specifier.subrange(0, 10) == timestamp_prefix() {
        Ok(rule_for(specifier.subrange(10, specifier.len() as int)))
    } else {
        Err(ErrorView::UnknownConversion(specifier))
    }
}

/// The mathematical content of what `parse` returned.
pub open spec fn rule_view(r: Result<Conversion, Error>) -> Result<ConversionView, ErrorView> {
    match r {
        Ok(c) => Ok(c@),
        Err(e) => Err(e@),
    }
}

/// The timestamp that was read, or the failure that says which text was
/// not one.
pub open spec fn reading(read: Option<(int, int)>, text: Seq<char>) -> Outcome {
    match instant_read(read) {
        Some(at) => Ok(ValueView::Timestamp(at)),
        None => Err(ErrorView::InvalidTimestamp(text)),
    }
}

impl ConversionView {
    /// What the rule makes of `bytes`: they are taken as text, and the text
    /// is read with the format of the rule.
    pub open spec fn convert(self, bytes: Seq<u8>) -> Outcome {
        let text = lossy_text(bytes);
        match self {
            ConversionView::TimestampFmt(format) => reading(utc_reading(text, format), text),
            ConversionView::TimestampTzFmt(format) => reading(zoned_reading(text, format), text),
        }
    }
}

/// A specifier made of the prefix and a format names the rule for that
/// format.
pub proof fn lemma_rule_of_prefixed(format: Seq<char>)
    ensures
        rule_named(timestamp_prefix() + format) == Ok::<ConversionView, ErrorView>(
            rule_for(format),
        ),
{
    let specifier = timestamp_prefix() + format;
    assert(specifier.subrange(0, 10) =~= timestamp_prefix());
    assert(specifier.subrange(10, specifier.len() as int) =~= format);
}

impl Conversion {
    /// The rule for reading timestamps with `format`.
    pub fn for_format(format: &str) -> (c: Conversion)
        ensures
            c@ == rule_for(format@),
    {
        if format_has_zone(format) {
            Conversion::TimestampTzFmt(format.to_owned())
        } else {
            Conversion::TimestampFmt(format.to_owned())
        }
    }

    /// The rule that `specifier` names.
    pub fn parse(specifier: &str) -> (r: Result<Conversion, Error>)
        ensures
            rule_view(r) == rule_named(specifier@),
    {
        let prefix = "timestamp|";
        proof {
            reveal_strlit("timestamp|");
            assert(prefix@ =~= timestamp_prefix());
        }
        let length = specifier.unicode_len();
        if length < 10 {
            return Err(Error::UnknownConversion(specifier.to_owned()));
        }
        let mut i: usize = 0;
        while i < 10
            invariant
                i <= 10,
                length == specifier@.len(),
                length >= 10,
                prefix@ == timestamp_prefix(),
                forall|j: int| 0 <= j < i ==> specifier@[j] == timestamp_prefix()[j],
            decreases 10 - i,
        {
            if specifier.get_char(i) != prefix.get_char(i) {
                proof {
                    assert(specifier@.subrange(0, 10)[i as int] == specifier@[i as int]);
                }
                return Err(Error::UnknownConversion(specifier.to_owned()));
            }
            i += 1;
        }
        proof {
            assert(specifier@.subrange(0, 10) =~= timestamp_prefix());
        }
        Ok(Conversion::for_format(specifier.substring_char(10, length)))
    }

    /// Applies the rule to `bytes`.
    pub fn convert(&self, bytes: &[u8]) -> (r: Result<Value, Error>)
        ensures
            result_view(r) == self@.convert(bytes@),
    {
        let text = lossy(bytes);
        let read = match self {
            Conversion::TimestampFmt(format) => Timestamp::read_utc(
                text.as_str(),
                format.as_str(),
            ),
            Conversion::TimestampTzFmt(format) => Timestamp::read_zoned(
                text.as_str(),
                format.as_str(),
            ),
        };
        match read {
            Some(t) => Ok(Value::Timestamp(t)),
            None => Err(Error::InvalidTimestamp(text)),
        }
    }
}

} // verus!
