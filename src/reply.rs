//! What the relay answers: the status, the JSON body and the timing header.
use vstd::prelude::*;
use vstd::string::*;
use crate::shaping::{summaries_view, VideoSummary};

verus! {

/// Why a request could not be answered with a list of videos.
pub enum AdapterError {
    /// The API credential is not configured.
    ConfigurationMissing,
    /// The upstream could not be reached.
    RequestFailed,
    /// The upstream answered with a status outside 2xx; its text is kept.
    UpstreamStatus(String),
    /// The upstream body is not JSON.
    ParseFailed,
    /// The upstream JSON has no `items` array.
    NoItemsFound,
}

pub open spec fn error_message_spec(e: AdapterError) -> Seq<char> {
    match e {
        AdapterError::ConfigurationMissing => "YOUTUBE_API_KEY is not set"@,
        AdapterError::RequestFailed => "Request failed"@,
        AdapterError::UpstreamStatus(text) => text@,
        AdapterError::ParseFailed => "Failed to parse response"@,
        AdapterError::NoItemsFound => "No videos found"@,
    }
}

/// A missing items array is answered with 404, every other failure with 500.
pub open spec fn status_code_spec(e: AdapterError) -> u16 {
    match e {
        AdapterError::NoItemsFound => 404,
        _ => 500,
    }
}

impl AdapterError {
    /// The text placed under `"error"` in the response body.
    pub fn message(&self) -> (r: String)
        ensures
            r@ == error_message_spec(*self),
    {
        match self {
            AdapterError::ConfigurationMissing => String::from_str("YOUTUBE_API_KEY is not set"),
            AdapterError::RequestFailed => String::from_str("Request failed"),
            AdapterError::UpstreamStatus(text) => text.clone(),
            AdapterError::ParseFailed => String::from_str("Failed to parse response"),
            AdapterError::NoItemsFound => String::from_str("No videos found"),
        }
    }

    /// The HTTP status of the response that reports this error.
    pub fn status_code(&self) -> (r: u16)
        ensures
            r == status_code_spec(*self),
    {
        match self {
            AdapterError::NoItemsFound => 404,
            _ => 500,
        }
    }
}

/// The lower-case hexadecimal digit of value `d`.
pub open spec fn hex_digit(d: nat) -> char {
    "0123456789abcdef"@[d as int]
}

/// How one character is written inside a JSON string: the quote, the
/// backslash and the control characters are escaped, the short forms used
/// where JSON has one; every other character stands for itself.
pub open spec fn escape_char(c: char) -> Seq<char> {
    if c == '"' {
        seq!['\\', '"']
    } else if c == '\\' {
        seq!['\\', '\\']
    } else if c == '\x08' {
        seq!['\\', 'b']
    } else if c == '\t' {
        seq!['\\', 't']
    } else if c == '\n' {
        seq!['\\', 'n']
    } else if c == '\x0C' {
        seq!['\\', 'f']
    } else if c == '\r' {
        seq!['\\', 'r']
    } else if (c as u32) < 0x20 {
        seq!['\\', 'u', '0', '0', hex_digit(c as u32 as nat / 16), hex_digit(c as u32 as nat % 16)]
    } else {
        seq![c]
    }
}

/// The characters of `s`, each escaped.
pub open spec fn escaped(s: Seq<char>) -> Seq<char>
    decreases s.len(),
{
    if s.len() == 0 {
        seq![]
    } else {
        escaped(s.drop_last()) + escape_char(s.last())
    }
}

/// The JSON string literal that stands for `s`: quoted, with escapes.
pub open spec fn json_string_literal(s: Seq<char>) -> Seq<char> {
    seq!['"'] + escaped(s) + seq!['"']
}

/// Relies on `serde_json::to_string` on a `str`: it writes the argument in
/// quotes with the escapes of its compact formatter, and serialising a `str`
/// into memory does not fail.
#[verifier::external_body]
fn json_quote(s: &str) -> (r: String)
    ensures
        r@ == json_string_literal(s@),
{
    match serde_json::to_string(s) {
        Ok(q) => q,
        Err(_) => String::new(),
    }
}

/// `{"error":<message>}`
pub open spec fn error_json(message: Seq<char>) -> Seq<char> {
    "{\"error\":"@ + json_string_literal(message) + "}"@
}

/// `{"title":<title>,"videoId":<id>}`: keys in the order that a JSON object
/// of the two fields is written in.
pub open spec fn summary_json(v: (Seq<char>, Seq<char>)) -> Seq<char> {
    "{\"title\":"@ + json_string_literal(v.1) + ",\"videoId\":"@ + json_string_literal(v.0) + "}"@
}

/// The summaries as JSON objects, separated by commas.
pub open spec fn summary_list_json(s: Seq<(Seq<char>, Seq<char>)>) -> Seq<char>
    decreases s.len(),
{
    if s.len() == 0 {
        seq![]
    } else if s.len() == 1 {
        summary_json(s[0])
    } else {
        summary_list_json(s.drop_last()) + ","@ + summary_json(s.last())
    }
}

/// The JSON array of the summaries.
pub open spec fn videos_json(s: Seq<(Seq<char>, Seq<char>)>) -> Seq<char> {
    "["@ + summary_list_json(s) + "]"@
}

/// The body that reports `e`.
pub fn error_body(e: &AdapterError) -> (r: String)
    ensures
        r@ == error_json(error_message_spec(*e)),
{
    let m = e.message();
    let mut r = String::from_str("{\"error\":");
    let q = json_quote(m.as_str());
    r.append(q.as_str());
    r.append("}");
    r
}

/// One summary as a JSON object.
fn summary_body(v: &VideoSummary) -> (r: String)
    ensures
        r@ == summary_json(v@),
{
    let mut r = String::from_str("{\"title\":");
    let t = json_quote(v.title.as_str());
    r.append(t.as_str());
    r.append(",\"videoId\":");
    let id = json_quote(v.video_id.as_str());
    r.append(id.as_str());
    r.append("}");
    r
}

/// The body of a successful response: the JSON array of the summaries.
pub fn videos_body(videos: &Vec<VideoSummary>) -> (r: String)
    ensures
        r@ == videos_json(summaries_view(videos@)),
{
    let mut list = String::new();
    let mut i: usize = 0;
    while i < videos.len()
        invariant
            i <= videos@.len(),
            list@ == summary_list_json(summaries_view(videos@.subrange(0, i as int))),
        decreases videos@.len() - i,
    {
        let one = summary_body(&videos[i]);
        proof {
            let p = summaries_view(videos@.subrange(0, i as int + 1));
            assert(p.drop_last() =~= summaries_view(videos@.subrange(0, i as int)));
            assert(p.last() == videos@[i as int]@);
        }
        if i > 0 {
            list.append(",");
        }
        list.append(one.as_str());
        proof {
            let p = summaries_view(videos@.subrange(0, i as int + 1));
            if i == 0 {
                assert(p.len() == 1);
                assert(list@ =~= summary_list_json(p));
            } else {
                assert(list@ =~= summary_list_json(p));
            }
        }
        i += 1;
    }
    assert(videos@.subrange(0, videos@.len() as int) =~= videos@);
    let mut r = String::from_str("[");
    r.append(list.as_str());
    r.append("]");
    r
}

/// The decimal digit characters, by value.
pub open spec fn digit_char(d: nat) -> char {
    "0123456789"@[d as int]
}

/// The decimal numeral of `n`, without leading zeros.
pub open spec fn decimal(n: nat) -> Seq<char>
    decreases n,
{
    if n < 10 {
        seq![digit_char(n)]
    } else {
        decimal(n / 10).push(digit_char(n % 10))
    }
}

/// The value of a string of decimal digits.
pub open spec fn digits_value(s: Seq<char>) -> int
    decreases s.len(),
{
    if s.len() == 0 {
        0
    } else {
        digits_value(s.drop_last()) * 10 + (s.last() as int - '0' as int)
    }
}

pub open spec fn is_digit(c: char) -> bool {
    '0' <= c && c <= '9'
}

/// The value of the response-time header: the elapsed milliseconds and `ms`.
pub open spec fn response_time_spec(elapsed_ms: nat) -> Seq<char> {
    decimal(elapsed_ms) + "ms"@
}

/// The numeral of `n` is a non-empty run of digits that reads back as `n`.
pub proof fn lemma_decimal_reads_back(n: nat)
    ensures
        decimal(n).len() >= 1,
        forall|i: int| 0 <= i < decimal(n).len() ==> is_digit(#[trigger] decimal(n)[i]),
        digits_value(decimal(n)) == n,
    decreases n,
{
    reveal_strlit("0123456789");
    if n < 10 {
        let s = decimal(n);
        assert(s.drop_last() =~= Seq::<char>::empty());
        assert(digits_value(s.drop_last()) == 0);
        assert(digit_char(n) as int - '0' as int == n);
    } else {
        lemma_decimal_reads_back(n / 10);
        let s = decimal(n);
        assert(s.drop_last() =~= decimal(n / 10));
        assert(digit_char(n % 10) as int - '0' as int == n % 10);
        assert((n / 10) * 10 + n % 10 == n) by (nonlinear_arith);
        assert forall|i: int| 0 <= i < s.len() implies is_digit(#[trigger] s[i]) by {
            if i < s.len() - 1 {
                assert(s[i] == decimal(n / 10)[i]);
            }
        }
    }
}

/// The response-time header of every successful response is a non-negative
/// integer followed by `ms`, and the integer is the elapsed time.
pub proof fn lemma_response_time_parses(elapsed_ms: nat)
    ensures
        ({
            let h = response_time_spec(elapsed_ms);
            let k = h.len() - 2;
            &&& k >= 1
            &&& h.subrange(k, h.len() as int) == "ms"@
            &&& forall|i: int| 0 <= i < k ==> is_digit(#[trigger] h[i])
            &&& digits_value(h.subrange(0, k)) == elapsed_ms
        }),
{
    reveal_strlit("ms");
    lemma_decimal_reads_back(elapsed_ms);
    let d = decimal(elapsed_ms);
    let h = response_time_spec(elapsed_ms);
    let k = h.len() - 2;
    assert(h.subrange(0, k) =~= d);
    assert(h.subrange(k, h.len() as int) =~= "ms"@);
    assert forall|i: int| 0 <= i < k implies is_digit(#[trigger] h[i]) by {
        assert(h[i] == d[i]);
    }
}

/// The decimal numeral of `n`.
fn decimal_string(n: u128) -> (r: String)
    ensures
        r@ == decimal(n as nat),
{
    let mut r = String::new();
    let mut m: u128 = n;
    loop
        invariant_except_break
            m > 0 || r@.len() == 0,
        invariant
            m <= n,
            decimal(n as nat) == if m == 0 && r@.len() > 0 {
                r@
            } else {
                decimal(m as nat) + r@
            },
        ensures
            decimal(n as nat) == r@,
        decreases m,
    {
        proof {
            reveal_strlit("0123456789");
        }
        let d = (m % 10) as usize;
        let piece = "0123456789".substring_char(d, d + 1);
        assert(piece@ =~= seq![digit_char(m as nat % 10)]);
        let next = m / 10;
        proof {
            if m >= 10 {
                assert(decimal(m as nat) =~= decimal(next as nat) + piece@);
            } else {
                assert(decimal(m as nat) =~= piece@);
            }
        }
        let mut s = String::from_str(piece);
        s.append(r.as_str());
        r = s;
        m = next;
        proof {
            if m > 0 {
                assert(decimal(n as nat) =~= decimal(m as nat) + r@);
            } else {
                assert(decimal(n as nat) =~= r@);
            }
        }
        if m == 0 {
            break;
        }
    }
    r
}

/// The value of the response-time header for `elapsed_ms` milliseconds.
pub fn response_time_header(elapsed_ms: u128) -> (r: String)
    ensures
        r@ == response_time_spec(elapsed_ms as nat),
{
    let mut r = decimal_string(elapsed_ms);
    r.append("ms");
    r
}

/// A response as the relay sends it.
pub struct HttpReply {
    pub status: u16,
    /// The JSON body.
    pub body: String,
    /// The value of the `X-Response-Time` header, on success only.
    pub response_time: Option<String>,
}

/// The name of the timing header.
pub const RESPONSE_TIME_HEADER: &'static str = "X-Response-Time";

/// The response for the outcome of a request, `elapsed_ms` after it came in.
pub fn reply_for(outcome: &Result<Vec<VideoSummary>, AdapterError>, elapsed_ms: u128) -> (r: HttpReply)
    ensures
        match outcome {
            Ok(videos) => {
                &&& r.status == 200
                &&& r.body@ == videos_json(summaries_view(videos@))
                &&& r.response_time matches Some(h) && h@ == response_time_spec(elapsed_ms as nat)
            },
            Err(e) => {
                &&& r.status == status_code_spec(*e)
                &&& r.body@ == error_json(error_message_spec(*e))
                &&& r.response_time is None
            },
        },
{
    match outcome {
        Ok(videos) => HttpReply {
            status: 200,
            body: videos_body(videos),
            response_time: Some(response_time_header(elapsed_ms)),
        },
        Err(e) => HttpReply { status: e.status_code(), body: error_body(e), response_time: None },
    }
}

} // verus!
