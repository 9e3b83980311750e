//! Classification of decoded response envelopes into outcomes.
//!
//! Every network operation funnels its decoded response through
//! [`classify`] before the result is handed back to the caller.
use vstd::prelude::*;

verus! {

use vstd::string::*;
use crate::text::{join_with, str_eq};

/// A decoded response envelope: the optional payload marker, the server's
/// error messages, and an optional human-readable rejection reason. The
/// payload itself stays with the caller; classification only needs to know
/// whether one is present.
pub struct ApiEnvelope {
    pub detail: Option<String>,
    pub errors: Option<Vec<String>>,
    pub has_data: bool,
}

/// The classified result of a server response: either the payload is
/// present and the caller may decode it, or one of the error kinds.
pub enum ApiOutcome {
    /// The envelope carried data.
    Success,
    /// The server's error messages included the literal rate-limit phrase.
    TooManyRequests,
    /// One or more rejection reasons, joined by single spaces in order.
    ApiError(String),
    /// Neither data nor any recognizable error information.
    Unknown,
}

/// Every message from `errors` in order, then `detail` if present.
pub open spec fn collected_messages(env: ApiEnvelope) -> Seq<Seq<char>> {
    (match env.errors {
        Some(es) => es.deep_view(),
        None => Seq::empty(),
    }) + (match env.detail {
        Some(d) => seq![d@],
        None => Seq::empty(),
    })
}

/// Collects the server's messages into a single ordered list, as
/// `collected_messages` describes.
pub fn collect_errors(env: &ApiEnvelope) -> (msgs: Vec<String>)
    ensures
        msgs.deep_view() == collected_messages(*env),
{
    let mut res: Vec<String> = Vec::new();
    if let Some(errors) = &env.errors {
        let n = errors.len();
        let mut i: usize = 0;
        while i < n
            invariant
                i <= n,
                n == errors@.len(),
                res.deep_view() == errors.deep_view().take(i as int),
            decreases n - i,
        {
            res.push(errors[i].clone());
            proof {
                assert(errors.deep_view().take(i + 1) =~= errors.deep_view().take(
                    i as int).push(errors.deep_view()[i as int]));
                assert(res.deep_view() =~= errors.deep_view().take(i + 1));
            }
            i += 1;
        }
        proof {
            assert(errors.deep_view().take(n as int) =~= errors.deep_view());
        }
    }
    if let Some(detail) = &env.detail {
        res.push(detail.clone());
    }
    proof {
        assert(res.deep_view() =~= collected_messages(*env));
    }
    res
}

/// True when some collected message equals the rate-limit phrase.
fn any_rate_limit_message(msgs: &Vec<String>) -> (r: bool)
    ensures
        r == msgs.deep_view().contains("Too Many Requests"@),
{
    let n = msgs.len();
    let mut i: usize = 0;
    while i < n
        invariant
            i <= n,
            n == msgs@.len(),
            forall|j: int| 0 <= j < i ==> msgs.deep_view()[j] != "Too Many Requests"@,
        decreases n - i,
    {
        if str_eq(msgs[i].as_str(), "Too Many Requests") {
            assert(msgs.deep_view()[i as int] == "Too Many Requests"@);
            return true;
        }
        i += 1;
    }
    proof {
        if msgs.deep_view().contains("Too Many Requests"@) {
            let j = choose|j: int|
                0 <= j < msgs.deep_view().len() && msgs.deep_view()[j] == "Too Many Requests"@;
        }
    }
    false
}

/// Classifies a decoded envelope, exactly as the response-classification
/// contract prescribes: data wins, then the rate-limit phrase, then any
/// collected messages joined by single spaces, and otherwise `Unknown`.
pub fn classify(env: &ApiEnvelope) -> (r: ApiOutcome)
    ensures
        env.has_data ==> r == ApiOutcome::Success,
        !env.has_data && collected_messages(*env).contains("Too Many Requests"@) ==> r
            == ApiOutcome::TooManyRequests,
        !env.has_data && !collected_messages(*env).contains("Too Many Requests"@)
            && collected_messages(*env).len() > 0 ==> (r matches ApiOutcome::ApiError(m) && m@
            == join_with(collected_messages(*env), " "@)),
        !env.has_data && collected_messages(*env).len() == 0 ==> r == ApiOutcome::Unknown,
{
    if env.has_data {
        return ApiOutcome::Success;
    }
    let msgs = collect_errors(env);
    if any_rate_limit_message(&msgs) {
        return ApiOutcome::TooManyRequests;
    }
    if msgs.len() > 0 {
        let joined = crate::text::join_strings(&msgs, " ");
        return ApiOutcome::ApiError(joined);
    }
    ApiOutcome::Unknown
}

} // verus!
