//! The SDK's data types and the decision logic of the `whoami` call: how a
//! response's status, headers and body map to an outcome.

use vstd::prelude::*;
use crate::jsonval::parses_as_json;
use crate::jsonval::json_value_of;
use crate::jsonval::json_obj_keys;
use crate::jsonval::json_str_field;
use crate::jsonval::json_parse;
use crate::jsonval::json_is_object;
use crate::jsonval::json_str_value;
use crate::render::hexdig;

verus! {

/// Basic identity returned by the identity endpoint.
pub struct User {
    pub id: String,
    pub email: String,
    pub name: Option<String>,
}

/// A tool registered in the service.
pub struct Tool {
    pub id: String,
    pub name: String,
    pub description: Option<String>,
    pub version: Option<String>,
    pub inputs: Option<serde_json::Value>,
    pub outputs: Option<serde_json::Value>,
}

/// Status of a tool run.
#[derive(Clone, Copy, PartialEq, Eq, Structural, Debug)]
pub enum RunStatus {
    Pending,
    Running,
    Succeeded,
    Failed,
    Canceled,
}

/// A run of a tool, with its timestamps as strings.
pub struct ToolRun {
    pub id: String,
    pub tool_id: String,
    pub status: RunStatus,
    pub created_at: Option<String>,
    pub started_at: Option<String>,
    pub finished_at: Option<String>,
    pub input: Option<serde_json::Value>,
    pub output: Option<serde_json::Value>,
    pub error_message: Option<String>,
}

/// One log event of a run.
pub struct LogEntry {
    pub ts: String,
    pub level: String,
    pub message: String,
    pub fields: Option<serde_json::Value>,
}

/// Simple pagination envelope.
pub struct Page<T> {
    pub items: Vec<T>,
    pub next_page_token: Option<String>,
    pub total: Option<u64>,
}

/// A decimal digit.
pub open spec fn is_digit(c: char) -> bool {
    0x30 <= (c as u32) <= 0x39
}

/// A non-empty run of decimal digits.
pub open spec fn all_digits(s: Seq<char>) -> bool {
    s.len() > 0 && (forall|i: int| 0 <= i < s.len() ==> is_digit(#[trigger] s[i]))
}

/// The text with one optional leading plus sign removed, as
/// `str::parse::<u64>` strips it.
pub open spec fn strip_plus(s: Seq<char>) -> Seq<char> {
    if s.len() > 0 && s[0] == '+' {
        s.skip(1)
    } else {
        s
    }
}

/// The number the digits spell.
pub open spec fn digits_value(s: Seq<char>) -> int
    decreases s.len(),
{
    if s.len() == 0 {
        0
    } else {
        digits_value(s.drop_last()) * 10 + ((s.last() as u32) - 0x30)
    }
}

proof fn lemma_digits_value_nonneg(s: Seq<char>)
    requires
        forall|i: int| 0 <= i < s.len() ==> is_digit(#[trigger] s[i]),
    ensures
        digits_value(s) >= 0,
    decreases s.len(),
{
    if s.len() > 0 {
        lemma_digits_value_nonneg(s.drop_last());
    }
}

proof fn lemma_digits_value_monotonic(s: Seq<char>, i: int)
    requires
        0 <= i <= s.len(),
        forall|j: int| 0 <= j < s.len() ==> is_digit(#[trigger] s[j]),
    ensures
        digits_value(s.subrange(0, i)) <= digits_value(s),
    decreases s.len() - i,
{
    if i < s.len() {
        let p = s.subrange(0, i);
        let q = s.subrange(0, i + 1);
        assert(q.drop_last() =~= p);
        assert(q.last() == s[i]);
        lemma_digits_value_nonneg(p);
        assert(digits_value(q) == digits_value(p) * 10 + ((s[i] as u32) - 0x30));
        assert(digits_value(p) <= digits_value(q));
        lemma_digits_value_monotonic(s, i + 1);
        assert(s.subrange(0, s.len() as int) =~= s);
    } else {
        assert(s.subrange(0, s.len() as int) =~= s);
    }
}

/// Parse a decimal number, as `str::parse::<u64>` accepts it: an optional
/// leading plus sign, then a non-empty digit run whose value fits.
pub fn parse_u64_dec(s: &str) -> (r: Option<u64>)
    ensures
        r matches Some(v) ==> all_digits(strip_plus(s@)) && v as int == digits_value(
            strip_plus(s@),
        ),
        r is None ==> !all_digits(strip_plus(s@)) || digits_value(strip_plus(s@)) > u64::MAX,
{
    let full = s.unicode_len();
    let t = if full > 0 && s.get_char(0) == '+' {
        s.substring_char(1, full)
    } else {
        s
    };
    proof {
        assert(t@ =~= strip_plus(s@));
    }
    let n = t.unicode_len();
    if n == 0 {
        return None;
    }
    let mut acc: u64 = 0;
    let mut i: usize = 0;
    proof {
        assert(digits_value(t@.subrange(0, 0)) == 0);
    }
    while i < n
        invariant
            t@ == strip_plus(s@),
            n == t@.len(),
            0 < n,
            0 <= i <= n,
            forall|j: int| 0 <= j < i ==> is_digit(#[trigger] t@[j]),
            acc as int == digits_value(t@.subrange(0, i as int)),
        decreases n - i,
    {
        let c = t.get_char(i);
        let u = c as u32;
        if !(0x30 <= u && u <= 0x39) {
            return None;
        }
        let d = (u - 0x30) as u64;
        if acc > (u64::MAX - d) / 10 {
            proof {
                let p = t@.subrange(0, i as int);
                let q = t@.subrange(0, i + 1 as int);
                assert(q.drop_last() =~= p);
                assert(q.last() == t@[i as int]);
                assert(digits_value(q) == (acc as int) * 10 + d);
                assert(digits_value(q) > u64::MAX);
                if forall|j: int| 0 <= j < t@.len() ==> is_digit(#[trigger] t@[j]) {
                    lemma_digits_value_monotonic(t@, i + 1);
                }
            }
            return None;
        }
        let next = acc * 10 + d;
        proof {
            let p = t@.subrange(0, i as int);
            let q = t@.subrange(0, i + 1 as int);
            assert(q.drop_last() =~= p);
            assert(q.last() == t@[i as int]);
        }
        acc = next;
        i = i + 1;
    }
    proof {
        assert(t@.subrange(0, n as int) =~= t@);
    }
    Some(acc)
}

/// The decimal spelling of a number, most significant digit first.
pub open spec fn dec_spec(v: int) -> Seq<char>
    decreases v,
{
    if v < 10 {
        seq![hexdig(if v < 0 { 0 } else { v })]
    } else {
        dec_spec(v / 10) + seq![hexdig(v % 10)]
    }
}

/// Spell a number in decimal.
pub fn u64_to_dec(v: u64) -> (r: String)
    ensures
        r@ == dec_spec(v as int),
    decreases v,
{
    proof {
        reveal_strlit("0123456789abcdef");
    }
    let digits = "0123456789abcdef";
    if v < 10 {
        let d = v as usize;
        let r = digits.substring_char(d, d + 1).to_owned();
        proof {
            assert(digits@.subrange(d as int, d + 1 as int) =~= seq![hexdig(v as int)]);
        }
        r
    } else {
        let mut r = u64_to_dec(v / 10);
        let d = (v % 10) as usize;
        r.append(digits.substring_char(d, d + 1));
        proof {
            assert(digits@.subrange(d as int, d + 1 as int) =~= seq![hexdig(v as int % 10)]);
        }
        r
    }
}

/// The outcome of one identity call, as the caller sees it.
pub enum WhoamiOutcome {
    /// A successful response, with its body.
    Success(String),
    Unauthorized,
    NotFound,
    /// Too many requests, with the parsed retry delay when one was sent.
    RateLimited(Option<u64>),
    /// A structured error body.
    Api { code: Option<String>, message: Option<String> },
    /// Anything else, with the body or a plain status line.
    Other(String),
}

/// How the retry delay is read from the header: `Some` exactly for an
/// optionally plus-signed digit run whose value fits.
pub open spec fn retry_after_value(header: Option<Seq<char>>, parsed: Option<u64>) -> bool {
    match header {
        None => parsed is None,
        Some(h) => match parsed {
            Some(v) => all_digits(strip_plus(h)) && v as int == digits_value(strip_plus(h)),
            None => !all_digits(strip_plus(h)) || digits_value(strip_plus(h)) > u64::MAX,
        },
    }
}

/// Map one response of the identity endpoint to its outcome: any success
/// status carries the body through; the well-known statuses map to their
/// own outcomes; anything else is a structured error carrying the body
/// object's `code` and `message` string fields when the body is a JSON
/// object, and the plain body — or a plain status line when the body is
/// empty — otherwise.
pub fn classify_whoami_response(status: u16, body: String, retry_after: Option<String>) -> (r:
    WhoamiOutcome)
    ensures
        200 <= status < 300 ==> (r matches WhoamiOutcome::Success(t) && t@ == body@),
        status == 401 ==> r == WhoamiOutcome::Unauthorized,
        status == 404 ==> r == WhoamiOutcome::NotFound,
        status == 429 ==> (r matches WhoamiOutcome::RateLimited(p) && retry_after_value(
            retry_after.deep_view(),
            p,
        )),
        !(200 <= status < 300) && status != 401 && status != 404 && status != 429 ==> ((
        body@.len() == 0 ==> (r matches WhoamiOutcome::Other(t) && t@ == "HTTP "@ + dec_spec(
            status as int,
        ))) && (body@.len() > 0 && !parses_as_json(body@) ==> (r matches WhoamiOutcome::Other(t)
            && t@ == body@)) && (body@.len() > 0 && parses_as_json(body@) && json_obj_keys(
            json_value_of(body@),
        ) is Some ==> (r matches WhoamiOutcome::Api { code, message } && code.deep_view()
            == json_str_field(json_value_of(body@), "code"@) && message.deep_view()
            == json_str_field(json_value_of(body@), "message"@))) && (body@.len() > 0
            && parses_as_json(body@) && json_obj_keys(json_value_of(body@)) is None ==> (
        r matches WhoamiOutcome::Other(t) && t@ == body@))),
{
    if 200 <= status && status < 300 {
        return WhoamiOutcome::Success(body);
    }
    if status == 401 {
        return WhoamiOutcome::Unauthorized;
    }
    if status == 404 {
        return WhoamiOutcome::NotFound;
    }
    if status == 429 {
        let parsed = match &retry_after {
            Some(h) => parse_u64_dec(h.as_str()),
            None => None,
        };
        return WhoamiOutcome::RateLimited(parsed);
    }
    if body.as_str().is_empty() {
        let mut line = "HTTP ".to_owned();
        line.append(u64_to_dec(status as u64).as_str());
        return WhoamiOutcome::Other(line);
    }
    match json_parse(body.as_str()) {
        Ok(v) => {
            if json_is_object(&v) {
                let code = json_str_value(&v, "code");
                let message = json_str_value(&v, "message");
                proof {
                    assert(code.deep_view() == json_str_field(v, "code"@));
                    assert(message.deep_view() == json_str_field(v, "message"@));
                }
                WhoamiOutcome::Api { code, message }
            } else {
                WhoamiOutcome::Other(body)
            }
        },
        Err(_) => WhoamiOutcome::Other(body),
    }
}

/// The base URL with every trailing path separator removed.
pub open spec fn trim_trailing_slashes(s: Seq<char>) -> Seq<char>
    decreases s.len(),
{
    if s.len() > 0 && s[s.len() - 1] == '/' {
        trim_trailing_slashes(s.drop_last())
    } else {
        s
    }
}

/// The identity endpoint's URL under a base URL, with trailing separators
/// on the base trimmed first.
pub fn whoami_url(base: &str) -> (r: String)
    ensures
        r@ == trim_trailing_slashes(base@) + "/whoami"@,
{
    let n = base.unicode_len();
    let mut end: usize = n;
    proof {
        assert(base@.subrange(0, n as int) =~= base@);
    }
    while end > 0 && base.get_char(end - 1) == '/'
        invariant
            n == base@.len(),
            0 <= end <= n,
            trim_trailing_slashes(base@) == trim_trailing_slashes(
                base@.subrange(0, end as int),
            ),
        decreases end,
    {
        proof {
            assert(base@.subrange(0, end as int).last() == base@[end - 1]);
            assert(base@.subrange(0, end as int).drop_last() =~= base@.subrange(
                0,
                end - 1 as int,
            ));
        }
        end = end - 1;
    }
    let mut out = base.substring_char(0, end).to_owned();
    out.append("/whoami");
    out
}

} // verus!
