//! Admission of an uploaded portfolio: the Content-Length header and the size limits.
use vstd::prelude::*;

verus! {

/// Limits on one uploaded portfolio.
#[derive(Clone, Copy, Debug, PartialEq, Eq, Structural)]
pub struct PortfolioLimits {
    /// Most bytes of an upload.
    pub max_file_size: usize,
    /// Most lots of a portfolio.
    pub max_num_lots: usize,
}

impl Default for PortfolioLimits {
    fn default() -> (r: PortfolioLimits)
        ensures
            r.max_file_size == 10000 && r.max_num_lots == 10000,
    {
        PortfolioLimits { max_file_size: 10_000, max_num_lots: 10_000 }
    }
}

/// The service's limits.
#[derive(Clone, Copy, Debug, PartialEq, Eq, Structural)]
pub struct Limits {
    pub portfolio: PortfolioLimits,
}

impl Default for Limits {
    fn default() -> (r: Limits)
        ensures
            r.portfolio.max_file_size == 10000 && r.portfolio.max_num_lots == 10000,
    {
        Limits { portfolio: PortfolioLimits::default() }
    }
}

/// Why the Content-Length header was refused.
#[derive(Clone, Debug, PartialEq, Eq)]
pub enum ContentLengthHeaderError {
    Missing,
    Malformed(String),
}

/// Whether a byte may stand in a header value read as text: visible ASCII or a tab.
pub open spec fn is_visible_ascii(b: u8) -> bool {
    b == 9 || (32 <= b && b < 127)
}

/// Whether every byte of a header value is visible ASCII or a tab.
pub open spec fn all_visible(h: Seq<u8>) -> bool {
    forall|i: int| 0 <= i < h.len() ==> is_visible_ascii(#[trigger] h[i])
}

/// Whether a byte is an ASCII digit.
pub open spec fn is_digit_byte(b: u8) -> bool {
    48 <= b && b <= 57
}

/// The number that ASCII digits write in base ten.
pub open spec fn digits_value(s: Seq<u8>) -> int
    decreases s.len(),
{
    if s.len() == 0 {
        0
    } else {
        digits_value(s.drop_last()) * 10 + (s.last() - 48)
    }
}

/// The digits of a number in text without its leading plus sign, if any.
pub open spec fn unsigned_digits(s: Seq<u8>) -> Seq<u8> {
    if s.len() > 0 && s[0] == 43 {
        s.drop_first()
    } else {
        s
    }
}

/// The `usize` that `str::parse` reads from a text: an optional plus sign, then one or
/// more digits, of a value that fits.
pub open spec fn parse_usize_spec(s: Seq<u8>) -> Option<int> {
    let d = unsigned_digits(s);
    if d.len() > 0 && (forall|i: int| 0 <= i < d.len() ==> is_digit_byte(#[trigger] d[i]))
        && digits_value(d) <= usize::MAX {
        Some(digits_value(d))
    } else {
        None
    }
}

/// Why a Content-Length header was refused.
pub enum ContentLengthFailure {
    Missing,
    NotText,
    NotNumber,
    NotPositive,
}

/// The content length that a header gives, or why it is refused: it must be there,
/// be text, hold a number and be above zero.
pub open spec fn content_length_spec(header: Option<Seq<u8>>) -> Result<int, ContentLengthFailure> {
    match header {
        None => Err(ContentLengthFailure::Missing),
        Some(h) => if !all_visible(h) {
            Err(ContentLengthFailure::NotText)
        } else {
            match parse_usize_spec(h) {
                None => Err(ContentLengthFailure::NotNumber),
                Some(n) => if n == 0 {
                    Err(ContentLengthFailure::NotPositive)
                } else {
                    Ok(n)
                },
            }
        },
    }
}

/// ASCII digits write a number of zero or more.
proof fn lemma_digits_value_nonneg(s: Seq<u8>)
    requires
        forall|i: int| 0 <= i < s.len() ==> is_digit_byte(#[trigger] s[i]),
    ensures
        digits_value(s) >= 0,
    decreases s.len(),
{
    if s.len() > 0 {
        assert forall|i: int| 0 <= i < s.drop_last().len() implies is_digit_byte(
            #[trigger] s.drop_last()[i],
        ) by {
            assert(s.drop_last()[i] == s[i]);
        }
        lemma_digits_value_nonneg(s.drop_last());
        assert(is_digit_byte(s.last()));
    }
}

/// Whether a result is the refusal `Malformed` with the message `msg`.
pub open spec fn is_malformed(r: Result<usize, ContentLengthHeaderError>, msg: Seq<char>) -> bool {
    r matches Err(ContentLengthHeaderError::Malformed(m)) && m@ == msg
}

/// Whether a result is what the header's outcome asks for.
pub open spec fn content_length_outcome(
    r: Result<usize, ContentLengthHeaderError>,
    outcome: Result<int, ContentLengthFailure>,
) -> bool {
    match outcome {
        Ok(n) => r matches Ok(v) && v as int == n,
        Err(ContentLengthFailure::Missing) => r == Err::<usize, ContentLengthHeaderError>(
            ContentLengthHeaderError::Missing,
        ),
        Err(ContentLengthFailure::NotText) => is_malformed(
            r,
            "failed to convert content-length to a string"@,
        ),
        Err(ContentLengthFailure::NotNumber) => is_malformed(
            r,
            "failed to parse content-length to a number"@,
        ),
        Err(ContentLengthFailure::NotPositive) => is_malformed(
            r,
            "content-length was not positive"@,
        ),
    }
}

/// Longer runs of digits never write smaller numbers.
proof fn lemma_digits_value_grows(s: Seq<u8>, k: int)
    requires
        0 <= k <= s.len(),
        forall|i: int| 0 <= i < s.len() ==> is_digit_byte(#[trigger] s[i]),
    ensures
        digits_value(s.take(k)) <= digits_value(s),
    decreases s.len() - k,
{
    if k < s.len() {
        assert(s.take(k + 1).drop_last() == s.take(k));
        assert(s.take(k + 1).last() == s[k]);
        assert(is_digit_byte(s[k]));
        assert forall|i: int| 0 <= i < s.take(k).len() implies is_digit_byte(
            #[trigger] s.take(k)[i],
        ) by {
            assert(s.take(k)[i] == s[i]);
        }
        lemma_digits_value_nonneg(s.take(k));
        lemma_digits_value_grows(s, k + 1);
    } else {
        assert(s.take(k) == s);
    }
}

/// Reads a number of ASCII digits with an optional leading plus sign, as `str::parse`
/// does for `usize`.
pub fn parse_usize(s: &[u8]) -> (r: Option<usize>)
    ensures
        match parse_usize_spec(s@) {
            Some(n) => r matches Some(v) && v as int == n,
            None => r is None,
        },
{
    let start: usize = if s.len() > 0 && s[0] == 43 {
        1
    } else {
        0
    };
    let ghost d = unsigned_digits(s@);
    assert(d == s@.skip(start as int));
    if start >= s.len() {
        return None;
    }
    let mut value: usize = 0;
    let mut i: usize = start;
    while i < s.len()
        invariant
            start <= i <= s.len(),
            d == s@.skip(start as int),
            d == unsigned_digits(s@),
            forall|k: int| 0 <= k < i - start ==> is_digit_byte(#[trigger] d[k]),
            value as int == digits_value(d.take(i - start)),
        decreases s.len() - i,
    {
        let b = s[i];
        assert(d[i - start] == b);
        if b < 48 || b > 57 {
            assert(!is_digit_byte(d[i - start]));
            return None;
        }
        assert(d.take(i - start + 1).drop_last() == d.take(i - start));
        if value > (usize::MAX - (b - 48) as usize) / 10 {
            proof {
                assert(digits_value(d.take(i - start + 1)) > usize::MAX) by (nonlinear_arith)
                    requires
                        value > (usize::MAX - (b - 48) as usize) / 10,
                        digits_value(d.take(i - start + 1)) == value * 10 + (b - 48),
                        0 <= b - 48 <= 9,
                ;
                if forall|k: int| 0 <= k < d.len() ==> is_digit_byte(#[trigger] d[k]) {
                    lemma_digits_value_grows(d, i - start + 1);
                }
            }
            return None;
        }
        value = value * 10 + (b - 48) as usize;
        i = i + 1;
    }
    assert(d.take(i - start) == d);
    Some(value)
}

/// The content length that a header value gives, or why it is refused: it must be
/// there, be visible ASCII, hold a number and be above zero.
pub fn content_length(header: Option<&[u8]>) -> (r: Result<usize, ContentLengthHeaderError>)
    ensures
        content_length_outcome(
            r,
            content_length_spec(
                match header {
                    Some(h) => Some(h@),
                    None => None,
                },
            ),
        ),
{
    let h = match header {
        None => return Err(ContentLengthHeaderError::Missing),
        Some(h) => h,
    };
    let mut i: usize = 0;
    while i < h.len()
        invariant
            i <= h.len(),
            header == Some(h),
            forall|k: int| 0 <= k < i ==> is_visible_ascii(#[trigger] h@[k]),
        decreases h.len() - i,
    {
        let b = h[i];
        if !(b == 9 || (32 <= b && b < 127)) {
            assert(!is_visible_ascii(h@[i as int]));
            return Err(
                ContentLengthHeaderError::Malformed(
                    "failed to convert content-length to a string".to_owned(),
                ),
            );
        }
        i = i + 1;
    }
    assert(all_visible(h@));
    match parse_usize(h) {
        None => {
            let m = "failed to parse content-length to a number".to_owned();
            Err(ContentLengthHeaderError::Malformed(m))
        },
        Some(n) => if n == 0 {
            let m = "content-length was not positive".to_owned();
            Err(ContentLengthHeaderError::Malformed(m))
        } else {
            Ok(n)
        },
    }
}

} // verus!
