//! The data shapes the analysis service answers with, and the verified
//! computations on them: picking the newest analysis date, filling absent
//! issue fields with a sentinel, and building the authorization header
//! value. The HTTP exchange itself lives outside the library and hands
//! these plain values in and out.

use vstd::prelude::*;

use crate::text::i32_to_string;
use crate::text::spec_int_text;

verus! {

/// The answer to a project-analyses query: the analyses, newest first.
pub struct ProjectAnalysesResponse {
    pub analyses: Vec<Analysis>,
}

/// One analysis run, reduced to its timestamp text.
pub struct Analysis {
    pub date: String,
}

/// The answer to an issue query.
pub struct IssuesResponse {
    pub issues: Vec<Issue>,
}

/// One issue as the service reports it: every field may be absent.
pub struct Issue {
    pub severity: Option<String>,
    pub message: Option<String>,
    pub component: Option<String>,
    pub line: Option<i32>,
}

/// One issue prepared for rendering: every field present as text, absent
/// values replaced by the `"N/A"` sentinel.
#[derive(Clone, Debug)]
pub struct IssueData {
    pub severity: String,
    pub message: String,
    pub component: String,
    pub line: String,
}

/// The text of an optional free-text field: the value, or the sentinel.
pub open spec fn spec_or_na(field: Option<String>) -> Seq<char> {
    match field {
        Some(s) => s@,
        None => "N/A"@,
    }
}

/// The text of an optional line number: its decimal rendering, or the
/// sentinel.
pub open spec fn spec_line_text(line: Option<i32>) -> Seq<char> {
    match line {
        Some(n) => spec_int_text(n as int),
        None => "N/A"@,
    }
}

fn or_na(field: &Option<String>) -> (r: String)
    ensures
        r@ == spec_or_na(*field),
{
    match field {
        Some(s) => s.clone(),
        None => String::from_str("N/A"),
    }
}

/// One raw issue prepared for rendering: absent fields become the sentinel,
/// a present line number becomes decimal text.
pub fn issue_to_data(issue: &Issue) -> (r: IssueData)
    ensures
        r.severity@ == spec_or_na(issue.severity),
        r.message@ == spec_or_na(issue.message),
        r.component@ == spec_or_na(issue.component),
        r.line@ == spec_line_text(issue.line),
{
    let line = match &issue.line {
        Some(n) => i32_to_string(*n),
        None => String::from_str("N/A"),
    };
    IssueData {
        severity: or_na(&issue.severity),
        message: or_na(&issue.message),
        component: or_na(&issue.component),
        line,
    }
}

/// Every issue of an answer prepared for rendering, in the answer's order.
pub fn issues_to_data(response: &IssuesResponse) -> (r: Vec<IssueData>)
    ensures
        r@.len() == response.issues@.len(),
        forall|i: int|
            0 <= i < r@.len() ==> {
                &&& r@[i].severity@ == spec_or_na(response.issues@[i].severity)
                &&& r@[i].message@ == spec_or_na(response.issues@[i].message)
                &&& r@[i].component@ == spec_or_na(response.issues@[i].component)
                &&& r@[i].line@ == spec_line_text(response.issues@[i].line)
            },
{
    let n = response.issues.len();
    let mut out: Vec<IssueData> = Vec::new();
    let mut i: usize = 0;
    while i < n
        invariant
            i <= n,
            n == response.issues@.len(),
            out@.len() == i,
            forall|j: int|
                0 <= j < i ==> {
                    &&& out@[j].severity@ == spec_or_na(response.issues@[j].severity)
                    &&& out@[j].message@ == spec_or_na(response.issues@[j].message)
                    &&& out@[j].component@ == spec_or_na(response.issues@[j].component)
                    &&& out@[j].line@ == spec_line_text(response.issues@[j].line)
                },
        decreases n - i,
    {
        let data = issue_to_data(&response.issues[i]);
        out.push(data);
        i = i + 1;
    }
    out
}

/// The date of the newest analysis in an answer, if it holds any.
pub fn first_analysis_date(response: &ProjectAnalysesResponse) -> (r: Option<String>)
    ensures
        match r {
            Some(d) => response.analyses@.len() > 0 && d@ == response.analyses@[0].date@,
            None => response.analyses@.len() == 0,
        },
{
    if response.analyses.len() > 0 {
        Some(response.analyses[0].date.clone())
    } else {
        None
    }
}

/// The standard base64 encoding of an input text's bytes. The encoding is a
/// function of the input alone; it is named here, not written out.
pub uninterp spec fn base64_of(s: Seq<char>) -> Seq<char>;

/// Relies on base64::encode (standard alphabet, with padding): the returned
/// encoding depends on the input alone.
#[verifier::external_body]
fn encode_base64(s: &str) -> (r: String)
    ensures
        r@ == base64_of(s@),
{
    base64::encode(s)
}

/// The HTTP Basic authorization header value for a token used as a user
/// name with an empty password: `"Basic "` followed by the base64 encoding
/// of the token and a trailing colon.
pub fn basic_auth_value(token: &str) -> (r: String)
    ensures
        r@ == "Basic "@ + base64_of(token@ + ":"@),
{
    let mut payload = token.to_owned();
    payload.append(":");
    let encoded = encode_base64(payload.as_str());
    let mut out = String::from_str("Basic ");
    out.append(encoded.as_str());
    out
}

/// The trailing-slash normalization of a base URL.
pub open spec fn spec_trim_trailing_slashes(s: Seq<char>) -> Seq<char>
    decreases s.len(),
{
    if s.len() > 0 && s[s.len() - 1] == '/' {
        spec_trim_trailing_slashes(s.drop_last())
    } else {
        s
    }
}

/// A base URL with every trailing slash removed.
pub fn normalize_base_url(url: &str) -> (r: String)
    ensures
        r@ == spec_trim_trailing_slashes(url@),
{
    let n = url.unicode_len();
    let mut end: usize = n;
    proof {
        assert(url@.take(n as int) =~= url@);
    }
    while end > 0 && url.get_char(end - 1) == '/'
        invariant
            end <= n,
            n == url@.len(),
            spec_trim_trailing_slashes(url@) == spec_trim_trailing_slashes(
                url@.take(end as int),
            ),
        decreases end,
    {
        proof {
            assert(url@.take(end as int).drop_last() =~= url@.take(end - 1));
        }
        end = end - 1;
    }
    let r = url.substring_char(0, end);
    proof {
        assert(url@.take(n as int) =~= url@);
        if end > 0 {
            assert(spec_trim_trailing_slashes(url@.take(end as int)) == url@.take(end as int));
        } else {
            assert(url@.take(0) =~= Seq::<char>::empty());
        }
        assert(r@ == url@.subrange(0, end as int));
        assert(url@.subrange(0, end as int) =~= url@.take(end as int));
    }
    r.to_owned()
}

} // verus!
