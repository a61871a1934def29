//! Settings of the language-model collaborator and the wording of its
//! failures for users.

use vstd::prelude::*;
use crate::text::concat;
use vstd::string::StrSliceExecFns;

verus! {

/// Timeouts, retries and delays of calls to the collaborator.
#[derive(Debug, Clone, Copy, PartialEq, Eq)]
pub struct LlmApiConfig {
    pub timeout_seconds: u64,
    pub max_retries: u32,
    pub retry_delay_ms: u64,
    pub rate_limit_delay_ms: u64,
}

impl Default for LlmApiConfig {
    /// Thirty seconds, three retries, one second between retries and five
    /// after a rate limit.
    fn default() -> (r: LlmApiConfig)
        ensures
            r == (LlmApiConfig {
                timeout_seconds: 30,
                max_retries: 3,
                retry_delay_ms: 1000,
                rate_limit_delay_ms: 5000,
            }),
    {
        LlmApiConfig {
            timeout_seconds: 30,
            max_retries: 3,
            retry_delay_ms: 1000,
            rate_limit_delay_ms: 5000,
        }
    }
}

/// Whether `needle` occurs in `hay` as a contiguous run.
pub open spec fn contains_chars(hay: Seq<char>, needle: Seq<char>) -> bool {
    exists|i: int| 0 <= i && i + needle.len() <= hay.len() && #[trigger] occurs_at(hay, needle, i)
}

/// Whether `needle` occurs in `hay` starting at index `i`.
pub open spec fn occurs_at(hay: Seq<char>, needle: Seq<char>, i: int) -> bool {
    hay.subrange(i, i + needle.len()) == needle
}

/// Whether `needle` occurs in `hay`.
pub fn str_contains(hay: &str, needle: &str) -> (r: bool)
    ensures
        r == contains_chars(hay@, needle@),
{
    let hn = hay.unicode_len();
    let n = needle.unicode_len();
    if n > hn {
        return false;
    }
    let mut i: usize = 0;
    while i <= hn - n
        invariant
            n == needle@.len(),
            hn == hay@.len(),
            n <= hn,
            i <= hn - n + 1,
            forall|k: int| 0 <= k < i ==> !#[trigger] occurs_at(hay@, needle@, k),
        decreases hn - i,
    {
        let mut j: usize = 0;
        let mut same = true;
        while j < n
            invariant
                n == needle@.len(),
                hn == hay@.len(),
                i + n <= hn,
                j <= n,
                same == (forall|m: int| 0 <= m < j ==> hay@[i + m] == needle@[m]),
            decreases n - j,
        {
            if hay.get_char(i + j) != needle.get_char(j) {
                same = false;
            }
            j = j + 1;
        }
        if same {
            assert(hay@.subrange(i as int, i + n) =~= needle@);
            assert(occurs_at(hay@, needle@, i as int));
            return true;
        }
        proof {
            let m = choose|m: int| 0 <= m < n && hay@[i + m] != needle@[m];
            assert(hay@.subrange(i as int, i + n)[m] != needle@[m]);
        }
        i = i + 1;
    }
    false
}

/// What a user is told about an error whose message is `message`: a
/// configuration hint when it mentions the API key, a connectivity note when
/// it mentions the network or a timeout, a slow-down note for a rate limit,
/// and otherwise the message itself behind a warning sign.
pub open spec fn user_message(message: Seq<char>) -> Seq<char> {
    if contains_chars(message, "API key"@) {
        "🔑 API configuration issue. Please check your environment variables."@
    } else if contains_chars(message, "Network"@) || contains_chars(message, "timeout"@) {
        "🌐 Network connectivity issue. The system will continue with local processing."@
    } else if contains_chars(message, "rate limit"@) {
        "⏳ Service is busy. The system will slow down requests automatically."@
    } else {
        "⚠️ "@ + message
    }
}

/// Words an error message for a user.
pub fn format_error_for_user(message: &str) -> (r: String)
    ensures
        r@ == user_message(message@),
{
    if str_contains(message, "API key") {
        "🔑 API configuration issue. Please check your environment variables.".to_owned()
    } else if str_contains(message, "Network") || str_contains(message, "timeout") {
        "🌐 Network connectivity issue. The system will continue with local processing.".to_owned()
    } else if str_contains(message, "rate limit") {
        "⏳ Service is busy. The system will slow down requests automatically.".to_owned()
    } else {
        concat("⚠️ ", message)
    }
}

/// Whether `c` is white space in Unicode's sense, as `char::is_whitespace`
/// has it.
pub open spec fn is_space(c: char) -> bool {
    ('\u{9}' <= c <= '\u{d}') || c == ' ' || c == '\u{85}' || c == '\u{a0}' || c == '\u{1680}'
        || ('\u{2000}' <= c <= '\u{200a}') || c == '\u{2028}' || c == '\u{2029}' || c == '\u{202f}'
        || c == '\u{205f}' || c == '\u{3000}'
}

fn space(c: char) -> (r: bool)
    ensures
        r == is_space(c),
{
    ('\u{9}' <= c && c <= '\u{d}') || c == ' ' || c == '\u{85}' || c == '\u{a0}' || c == '\u{1680}'
        || ('\u{2000}' <= c && c <= '\u{200a}') || c == '\u{2028}' || c == '\u{2029}' || c
        == '\u{202f}' || c == '\u{205f}' || c == '\u{3000}'
}

/// `s` without leading white space.
pub open spec fn trim_start(s: Seq<char>) -> Seq<char>
    decreases s.len(),
{
    if s.len() > 0 && is_space(s[0]) {
        trim_start(s.drop_first())
    } else {
        s
    }
}

/// `s` without trailing white space.
pub open spec fn trim_end(s: Seq<char>) -> Seq<char>
    decreases s.len(),
{
    if s.len() > 0 && is_space(s.last()) {
        trim_end(s.drop_last())
    } else {
        s
    }
}

/// `s` without leading or trailing white space.
pub open spec fn trimmed(s: Seq<char>) -> Seq<char> {
    trim_end(trim_start(s))
}

/// `s` with every leading repetition of `p` removed.
pub open spec fn strip_leading(s: Seq<char>, p: Seq<char>) -> Seq<char>
    decreases s.len(),
{
    if p.len() > 0 && s.len() >= p.len() && s.subrange(0, p.len() as int) == p {
        strip_leading(s.subrange(p.len() as int, s.len() as int), p)
    } else {
        s
    }
}

/// `s` with every trailing repetition of `p` removed.
pub open spec fn strip_trailing(s: Seq<char>, p: Seq<char>) -> Seq<char>
    decreases s.len(),
{
    if p.len() > 0 && s.len() >= p.len() && s.subrange(s.len() - p.len(), s.len() as int) == p {
        strip_trailing(s.subrange(0, s.len() - p.len()), p)
    } else {
        s
    }
}

/// A model reply with white space and markdown code fences taken off.
pub open spec fn unfenced(text: Seq<char>) -> Seq<char> {
    trimmed(
        strip_trailing(
            strip_leading(strip_leading(trimmed(text), "```json"@), "```"@),
            "```"@,
        ),
    )
}

/// Why a model reply holds no JSON object.
#[derive(Debug, Clone)]
pub enum CleanJsonError {
    /// Nothing is left once white space and fences are taken off.
    EmptyResponse,
    /// What is left does not open with `{` and close with `}`.
    NotJsonObject(String),
}

/// Index range of `text@` left once leading and trailing white space in
/// `[lo, hi)` is skipped.
pub fn trim_range(text: &str, lo: usize, hi: usize) -> (r: (usize, usize))
    requires
        lo <= hi <= text@.len(),
    ensures
        r.0 <= r.1,
        lo <= r.0,
        r.1 <= hi,
        text@.subrange(r.0 as int, r.1 as int) == trimmed(text@.subrange(lo as int, hi as int)),
{
    let mut a = lo;
    while a < hi && space(text.get_char(a))
        invariant
            lo <= a <= hi <= text@.len(),
            trim_start(text@.subrange(lo as int, hi as int)) == trim_start(text@.subrange(a as int, hi as int)),
        decreases hi - a,
    {
        assert(text@.subrange(a as int, hi as int).drop_first() =~= text@.subrange(a + 1, hi as int));
        a = a + 1;
    }
    assert(trim_start(text@.subrange(a as int, hi as int)) == text@.subrange(a as int, hi as int));
    let mut b = hi;
    while b > a && space(text.get_char(b - 1))
        invariant
            a <= b <= hi <= text@.len(),
            trim_end(text@.subrange(a as int, hi as int)) == trim_end(text@.subrange(a as int, b as int)),
        decreases b - a,
    {
        assert(text@.subrange(a as int, b as int).drop_last() =~= text@.subrange(a as int, b - 1));
        b = b - 1;
    }
    (a, b)
}

/// Whether `p` occurs in `text@` at index `at`.
fn occurs(text: &str, at: usize, p: &str) -> (r: bool)
    requires
        at <= text@.len(),
    ensures
        r == (at + p@.len() <= text@.len() && text@.subrange(at as int, at + p@.len()) == p@),
{
    let n = p.unicode_len();
    let tn = text.unicode_len();
    if n > tn - at {
        return false;
    }
    let mut k: usize = 0;
    while k < n
        invariant
            n == p@.len(),
            tn == text@.len(),
            at + n <= tn,
            k <= n,
            forall|m: int| 0 <= m < k ==> text@[at + m] == p@[m],
        decreases n - k,
    {
        if text.get_char(at + k) != p.get_char(k) {
            assert(text@.subrange(at as int, at + n)[k as int] != p@[k as int]);
            return false;
        }
        k = k + 1;
    }
    assert(text@.subrange(at as int, at + n) =~= p@);
    true
}

/// Start of what is left in `[lo, hi)` once leading repetitions of `p` go.
fn skip_leading(text: &str, lo: usize, hi: usize, p: &str) -> (r: usize)
    requires
        lo <= hi <= text@.len(),
    ensures
        lo <= r <= hi,
        text@.subrange(r as int, hi as int) == strip_leading(text@.subrange(lo as int, hi as int), p@),
{
    let n = p.unicode_len();
    if n == 0 {
        return lo;
    }
    let mut a = lo;
    while hi - a >= n && occurs(text, a, p)
        invariant
            n == p@.len(),
            n > 0,
            lo <= a <= hi <= text@.len(),
            strip_leading(text@.subrange(lo as int, hi as int), p@) == strip_leading(text@.subrange(a as int, hi as int), p@),
        decreases hi - a,
    {
        assert(text@.subrange(a as int, hi as int).subrange(0, n as int) =~= text@.subrange(a as int, a + n));
        assert(text@.subrange(a as int, hi as int).subrange(n as int, hi - a) =~= text@.subrange(a + n, hi as int));
        a = a + n;
    }
    if hi - a >= n {
        assert(text@.subrange(a as int, hi as int).subrange(0, n as int) =~= text@.subrange(a as int, a + n));
    }
    a
}

/// End of what is left in `[lo, hi)` once trailing repetitions of `p` go.
fn skip_trailing(text: &str, lo: usize, hi: usize, p: &str) -> (r: usize)
    requires
        lo <= hi <= text@.len(),
    ensures
        lo <= r <= hi,
        text@.subrange(lo as int, r as int) == strip_trailing(text@.subrange(lo as int, hi as int), p@),
{
    let n = p.unicode_len();
    if n == 0 {
        return hi;
    }
    let mut b = hi;
    while b - lo >= n && occurs(text, b - n, p)
        invariant
            n == p@.len(),
            n > 0,
            lo <= b <= hi <= text@.len(),
            strip_trailing(text@.subrange(lo as int, hi as int), p@) == strip_trailing(text@.subrange(lo as int, b as int), p@),
        decreases b - lo,
    {
        let ghost w = text@.subrange(lo as int, b as int);
        assert(w.subrange(w.len() - n, w.len() as int) =~= text@.subrange(b - n, b as int));
        assert(w.subrange(0, w.len() - n) =~= text@.subrange(lo as int, b - n));
        b = b - n;
    }
    if b - lo >= n {
        let ghost w = text@.subrange(lo as int, b as int);
        assert(w.subrange(w.len() - n, w.len() as int) =~= text@.subrange(b - n, b as int));
    }
    b
}

/// Takes white space and markdown code fences off a model reply and checks
/// that what is left looks like a JSON object.
pub fn clean_json_text(text: &str) -> (r: Result<String, CleanJsonError>)
    ensures
        unfenced(text@).len() == 0 ==> r matches Err(CleanJsonError::EmptyResponse),
        unfenced(text@).len() > 0 && (unfenced(text@)[0] != '{' || unfenced(text@).last() != '}')
            ==> (r matches Err(CleanJsonError::NotJsonObject(s)) && s@ == unfenced(text@)),
        unfenced(text@).len() > 0 && unfenced(text@)[0] == '{' && unfenced(text@).last() == '}'
            ==> (r matches Ok(s) && s@ == unfenced(text@)),
{
    let n = text.unicode_len();
    assert(text@.subrange(0, n as int) =~= text@);
    let (a, b) = trim_range(text, 0, n);
    let a = skip_leading(text, a, b, "```json");
    let a = skip_leading(text, a, b, "```");
    let b = skip_trailing(text, a, b, "```");
    let (a, b) = trim_range(text, a, b);
    let ghost c = unfenced(text@);
    assert(text@.subrange(a as int, b as int) == c);
    if a == b {
        return Err(CleanJsonError::EmptyResponse);
    }
    let cleaned = text.substring_char(a, b).to_owned();
    if text.get_char(a) != '{' || text.get_char(b - 1) != '}' {
        return Err(CleanJsonError::NotJsonObject(cleaned));
    }
    Ok(cleaned)
}

/// How a call to the collaborator failed.
#[derive(Debug, Clone, Copy, PartialEq, Eq)]
pub enum ApiFailure {
    ApiKeyMissing,
    Network,
    Timeout,
    Http(u16),
    JsonParse,
    InvalidResponseStructure,
    EmptyResponse,
    RateLimitExceeded,
    Serialization,
    MaxRetriesExceeded,
    InvalidEmotionMapping,
    /// The reply arrived but could not be read as the expected value.
    Unparsable,
}

/// Whether trying again may help: network trouble, a timeout or a server error.
pub open spec fn retryable(f: ApiFailure) -> bool {
    match f {
        ApiFailure::Network => true,
        ApiFailure::Timeout => true,
        ApiFailure::Http(status) => status >= 500,
        _ => false,
    }
}

/// Whether a failure may be retried.
pub fn is_retryable_error(f: ApiFailure) -> (r: bool)
    ensures
        r == retryable(f),
{
    match f {
        ApiFailure::Network => true,
        ApiFailure::Timeout => true,
        ApiFailure::Http(status) => status >= 500,
        _ => false,
    }
}

/// What to do after a failed attempt.
#[derive(Debug, Clone, Copy, PartialEq, Eq)]
pub enum RetryStep {
    /// Wait this many milliseconds, then try again.
    WaitAndRetry(u64),
    /// Stop and report the failure.
    GiveUp,
}

/// The step after attempt number `attempt` (from 1) failed with `f`: while
/// attempts remain, an unreadable reply or a retryable failure waits the
/// retry delay and a rate limit waits the longer rate-limit delay; anything
/// else, or the last attempt, gives up.
pub open spec fn retry_step(c: LlmApiConfig, attempt: u32, f: ApiFailure) -> RetryStep {
    if attempt >= c.max_retries {
        RetryStep::GiveUp
    } else {
        match f {
            ApiFailure::Unparsable => RetryStep::WaitAndRetry(c.retry_delay_ms),
            ApiFailure::RateLimitExceeded => RetryStep::WaitAndRetry(c.rate_limit_delay_ms),
            _ => if retryable(f) {
                RetryStep::WaitAndRetry(c.retry_delay_ms)
            } else {
                RetryStep::GiveUp
            },
        }
    }
}

/// Decides what follows a failed attempt.
pub fn next_retry_step(config: &LlmApiConfig, attempt: u32, f: ApiFailure) -> (r: RetryStep)
    ensures
        r == retry_step(*config, attempt, f),
{
    if attempt >= config.max_retries {
        return RetryStep::GiveUp;
    }
    match f {
        ApiFailure::Unparsable => RetryStep::WaitAndRetry(config.retry_delay_ms),
        ApiFailure::RateLimitExceeded => RetryStep::WaitAndRetry(config.rate_limit_delay_ms),
        _ => if is_retryable_error(f) {
            RetryStep::WaitAndRetry(config.retry_delay_ms)
        } else {
            RetryStep::GiveUp
        },
    }
}

/// The category under which the error tracker counts a failure.
pub fn failure_kind(f: ApiFailure) -> (r: crate::mind::FailureKind)
    ensures
        r == (match f {
            ApiFailure::Network => crate::mind::FailureKind::Network,
            ApiFailure::Timeout => crate::mind::FailureKind::Timeout,
            ApiFailure::RateLimitExceeded => crate::mind::FailureKind::RateLimit,
            ApiFailure::JsonParse | ApiFailure::InvalidResponseStructure | ApiFailure::EmptyResponse
            | ApiFailure::InvalidEmotionMapping | ApiFailure::Unparsable => crate::mind::FailureKind::MalformedResponse,
            _ => crate::mind::FailureKind::Other,
        }),
{
    match f {
        ApiFailure::Network => crate::mind::FailureKind::Network,
        ApiFailure::Timeout => crate::mind::FailureKind::Timeout,
        ApiFailure::RateLimitExceeded => crate::mind::FailureKind::RateLimit,
        ApiFailure::JsonParse | ApiFailure::InvalidResponseStructure | ApiFailure::EmptyResponse
        | ApiFailure::InvalidEmotionMapping | ApiFailure::Unparsable => crate::mind::FailureKind::MalformedResponse,
        _ => crate::mind::FailureKind::Other,
    }
}

} // verus!
