use vstd::prelude::*;
use vstd::string::*;

use crate::json::{json_obj_view, json_view, lemma_json_obj_view, Json, JsonValue};
use crate::text::{
    char_width, chars_of, decimal, decimal_string, lemma_utf8_len_take_mono, lemma_utf8_len_take_step, owned, string_of,
    utf8_len,
};

verus! {

/// At most this many bytes of a failed response body are shown in a diagnostic.
pub const DIAGNOSTIC_BODY_LIMIT: usize = 1024;

/// Appended to a diagnostic body that was cut short.
pub open spec fn truncation_marker() -> Seq<char> {
    "... [truncated]"@
}

/// `k` is the number of characters of `body` kept when it is cut to fit, with the
/// marker, in `DIAGNOSTIC_BODY_LIMIT` bytes: the longest prefix of at most
/// `DIAGNOSTIC_BODY_LIMIT - 15` bytes.
pub open spec fn is_cut_point(body: Seq<char>, k: int) -> bool {
    &&& 0 <= k < body.len()
    &&& utf8_len(body.take(k)) <= DIAGNOSTIC_BODY_LIMIT - 15
    &&& utf8_len(body.take(k + 1)) > DIAGNOSTIC_BODY_LIMIT - 15
}

/// A body has at most one cut point.
pub proof fn lemma_cut_point_unique(body: Seq<char>, j: int, k: int)
    requires
        is_cut_point(body, j),
        is_cut_point(body, k),
    ensures
        j == k,
{
    if j < k {
        lemma_utf8_len_take_mono(body, j + 1, k);
    } else if k < j {
        lemma_utf8_len_take_mono(body, k + 1, j);
    }
}

/// The diagnostic shown for a response body.
pub open spec fn diagnostic_of(body: Seq<char>) -> Seq<char> {
    if utf8_len(body) <= DIAGNOSTIC_BODY_LIMIT {
        body
    } else {
        body.take(choose|k: int| is_cut_point(body, k)) + truncation_marker()
    }
}

/// The part of a response body that is shown in an error: the whole body when it
/// fits in `DIAGNOSTIC_BODY_LIMIT` bytes, else its longest prefix that leaves room
/// for the truncation marker, followed by the marker.
pub fn diagnostic_body(body: &str) -> (r: String)
    ensures
        r@ == diagnostic_of(body@),
        utf8_len(body@) <= DIAGNOSTIC_BODY_LIMIT ==> r@ == body@,
        utf8_len(body@) > DIAGNOSTIC_BODY_LIMIT ==> exists|k: int|
            is_cut_point(body@, k) && r@ == body@.take(k) + truncation_marker(),
{
    let chars = chars_of(body);
    let budget = DIAGNOSTIC_BODY_LIMIT - 15;
    // Walk the body until it no longer fits the limit, remembering where the
    // prefix that leaves room for the marker ends.
    let mut i: usize = 0;
    let mut used: usize = 0;
    let mut cut: usize = 0;
    let mut cut_found = false;
    while i < chars.len()
        invariant
            chars@ == body@,
            i <= chars@.len(),
            used == utf8_len(body@.take(i as int)),
            used <= DIAGNOSTIC_BODY_LIMIT,
            cut_found ==> is_cut_point(body@, cut as int),
            !cut_found ==> used <= budget,
            budget == DIAGNOSTIC_BODY_LIMIT - 15,
        decreases chars@.len() - i,
    {
        proof {
            lemma_utf8_len_take_step(body@, i as int);
        }
        let w = char_width(chars[i]);
        if used + w > DIAGNOSTIC_BODY_LIMIT {
            assert(body@.take(chars@.len() as int) =~= body@);
            proof {
                lemma_utf8_len_take_mono(body@, i + 1, chars@.len() as int);
            }
            if !cut_found {
                cut = i;
                cut_found = true;
            }
            let mut out = string_of(&chars, 0, cut);
            let marker = "... [truncated]";
            proof {
                reveal_strlit("... [truncated]");
            }
            assert(marker@ =~= truncation_marker());
            out.append(marker);
            assert(chars@.subrange(0, cut as int) =~= body@.take(cut as int));
            assert(is_cut_point(body@, cut as int));
            assert(out@ == body@.take(cut as int) + truncation_marker());
            proof {
                let k = choose|k: int| is_cut_point(body@, k);
                lemma_cut_point_unique(body@, k, cut as int);
            }
            return out;
        }
        if !cut_found && used + w > budget {
            cut = i;
            cut_found = true;
        }
        used = used + w;
        i = i + 1;
    }
    assert(body@.take(chars@.len() as int) =~= body@);
    owned(body)
}

} // verus!

verus! {

/// How a request is authorized.
#[derive(Debug, PartialEq, Eq)]
pub enum Credential {
    /// `Authorization: Bearer <token>`.
    Bearer(String),
    /// `Project-Access-Token: <token>`.
    ProjectAccessToken(String),
}

/// `Credential` with its token as a character sequence.
pub enum CredentialView {
    Bearer(Seq<char>),
    ProjectAccessToken(Seq<char>),
}

/// A JSON `POST` request to a backend.
#[derive(Debug, PartialEq, Eq)]
pub struct HttpRequest {
    pub url: String,
    pub credential: Credential,
    pub body: JsonValue,
}

/// `HttpRequest` as mathematical values.
pub struct HttpRequestView {
    pub url: Seq<char>,
    pub credential: CredentialView,
    pub body: Json,
}

impl View for Credential {
    type V = CredentialView;

    open spec fn view(&self) -> CredentialView {
        match self {
            Credential::Bearer(t) => CredentialView::Bearer(t@),
            Credential::ProjectAccessToken(t) => CredentialView::ProjectAccessToken(t@),
        }
    }
}

impl View for HttpRequest {
    type V = HttpRequestView;

    open spec fn view(&self) -> HttpRequestView {
        HttpRequestView { url: self.url@, credential: self.credential@, body: self.body@ }
    }
}

/// An HTTP status in the success class, 200 to 299.
pub open spec fn is_success_status(status: u16) -> bool {
    200 <= status <= 299
}

/// Whether an HTTP status is in the success class.
pub fn is_success(status: u16) -> (r: bool)
    ensures
        r == is_success_status(status),
{
    200 <= status && status <= 299
}

/// `s` without the characters `c` at its end.
pub open spec fn trim_end_char(s: Seq<char>, c: char) -> Seq<char>
    decreases s.len(),
{
    if s.len() > 0 && s.last() == c {
        trim_end_char(s.drop_last(), c)
    } else {
        s
    }
}

/// `s.trim_end_matches(c)`.
pub fn trim_end_matches(s: &str, c: char) -> (r: String)
    ensures
        r@ == trim_end_char(s@, c),
{
    let cs = chars_of(s);
    let mut j = cs.len();
    assert(s@.subrange(0, j as int) =~= s@);
    while j > 0 && cs[j - 1] == c
        invariant
            cs@ == s@,
            j <= cs@.len(),
            trim_end_char(s@, c) == trim_end_char(s@.subrange(0, j as int), c),
        decreases j,
    {
        assert(s@.subrange(0, j as int).drop_last() =~= s@.subrange(0, j - 1));
        j = j - 1;
    }
    string_of(&cs, 0, j)
}

/// A JSON string.
pub fn json_str(s: &str) -> (r: JsonValue)
    ensures
        r@ == Json::Str(s@),
{
    JsonValue::Str(owned(s))
}

/// A JSON number with the value `n`.
pub fn json_usize(n: usize) -> (r: JsonValue)
    ensures
        r@ == Json::Number(decimal(n as nat)),
{
    JsonValue::Number(decimal_string(n))
}

/// A JSON object of one member.
pub fn json_object1(k: &str, v: JsonValue) -> (r: JsonValue)
    ensures
        r@ == Json::Object(seq![(k@, v@)]),
{
    let mut members: Vec<(String, JsonValue)> = Vec::new();
    members.push((owned(k), v));
    proof {
        lemma_json_obj_view(members@);
    }
    let r = JsonValue::Object(members);
    assert(json_obj_view(members@) =~= seq![(k@, json_view(members@[0].1))]);
    r
}

/// Appends a member to a JSON object under construction.
pub fn push_member(members: &mut Vec<(String, JsonValue)>, k: &str, v: JsonValue)
    ensures
        json_obj_view(final(members)@) == json_obj_view(old(members)@).push((k@, v@)),
{
    let ghost before = members@;
    members.push((owned(k), v));
    assert(members@.drop_last() =~= before);
}

} // verus!

verus! {

/// How `reqwest::StatusCode` displays a status, such as `502 Bad Gateway`.
pub uninterp spec fn http_status_text(status: u16) -> Seq<char>;

/// `reqwest::StatusCode::from_u16(status)` displayed, or the bare number when it is
/// not a status code. Claimed: the result is the named text of the status.
#[verifier::external_body]
pub(crate) fn status_text(status: u16) -> (r: String)
    ensures
        r@ == http_status_text(status),
{
    match reqwest::StatusCode::from_u16(status) {
        Ok(code) => code.to_string(),
        Err(_) => status.to_string(),
    }
}

} // verus!
