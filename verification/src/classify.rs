//! Response classification: whether a response is reported, the display
//! tier of its status code, and the output-file line a reported response
//! contributes.

use vstd::prelude::*;
use crate::text::{spec_dec_digits, u16_to_string};

verus! {

/// Display tier of a status code; it drives console coloring only, never
/// the report decision.
#[derive(Clone, Copy, Debug, PartialEq, Eq, Structural)]
pub enum StatusTier {
    /// Any 2xx code.
    Success,
    /// A fixed set of common client and server error codes.
    Error,
    /// Everything else.
    Neutral,
}

/// The accepted status-code set actually used: just 200 when none was
/// configured.
pub open spec fn spec_effective_codes(accepted: Seq<u16>) -> Seq<u16> {
    if accepted.len() == 0 {
        seq![200u16]
    } else {
        accepted
    }
}

/// Whether a response is reported: its status code is in the effective
/// accepted set and its body length, when known, is not suppressed.
pub open spec fn spec_should_report(
    status: u16,
    content_length: Option<u64>,
    accepted: Seq<u16>,
    suppressed: Seq<u64>,
) -> bool {
    &&& spec_effective_codes(accepted).contains(status)
    &&& match content_length {
        Some(l) => !suppressed.contains(l),
        None => true,
    }
}

fn codes_contain(v: &Vec<u16>, x: u16) -> (r: bool)
    ensures
        r == v@.contains(x),
{
    let mut i: usize = 0;
    while i < v.len()
        invariant
            i <= v.len(),
            forall|k: int| 0 <= k < i ==> v@[k] != x,
        decreases v.len() - i,
    {
        if v[i] == x {
            return true;
        }
        i = i + 1;
    }
    false
}

fn lengths_contain(v: &Vec<u64>, x: u64) -> (r: bool)
    ensures
        r == v@.contains(x),
{
    let mut i: usize = 0;
    while i < v.len()
        invariant
            i <= v.len(),
            forall|k: int| 0 <= k < i ==> v@[k] != x,
        decreases v.len() - i,
    {
        if v[i] == x {
            return true;
        }
        i = i + 1;
    }
    false
}

/// Decide whether a response is reported, from its status code, its body
/// length when the server stated one, and the configured sets.
pub fn should_report(
    status: u16,
    content_length: Option<u64>,
    accepted: &Vec<u16>,
    suppressed: &Vec<u64>,
) -> (r: bool)
    ensures
        r == spec_should_report(status, content_length, accepted@, suppressed@),
{
    let in_codes = if accepted.len() == 0 {
        proof {
            assert(spec_effective_codes(accepted@) == seq![200u16]);
            assert(seq![200u16].contains(status) <==> status == 200) by {
                if seq![200u16].contains(status) {
                    let i = choose|i: int| 0 <= i < 1 && seq![200u16][i] == status;
                } else {
                    assert(seq![200u16][0] == 200u16);
                }
            }
        }
        status == 200
    } else {
        codes_contain(accepted, status)
    };
    if !in_codes {
        return false;
    }
    match content_length {
        Some(l) => !lengths_contain(suppressed, l),
        None => true,
    }
}

/// The display tier of a status code.
pub open spec fn spec_status_tier(status: u16) -> StatusTier {
    if 200 <= status <= 299 {
        StatusTier::Success
    } else if status == 400 || status == 404 || status == 417 || status == 424 || status == 500
        || status == 502 || status == 504 || status == 505 {
        StatusTier::Error
    } else {
        StatusTier::Neutral
    }
}

/// Classify a status code into its display tier: 2xx is the success tier, a
/// fixed set of common 4xx and 5xx codes is the error tier, and anything
/// else is neutral.
pub fn status_tier(status: u16) -> (t: StatusTier)
    ensures
        t == spec_status_tier(status),
{
    if 200 <= status && status <= 299 {
        StatusTier::Success
    } else if status == 400 || status == 404 || status == 417 || status == 424 || status == 500
        || status == 502 || status == 504 || status == 505 {
        StatusTier::Error
    } else {
        StatusTier::Neutral
    }
}

/// The output-file line one reported response contributes: the request URL,
/// a separator, the status code in decimal, and a newline.
pub open spec fn spec_log_line(request: Seq<char>, status: u16) -> Seq<char> {
    request + seq![' ', '-', '-', ' '] + spec_dec_digits(status as int) + seq!['\n']
}

/// Build the output-file line for one reported response.
pub fn build_log_line(request: &str, status: u16) -> (r: String)
    ensures
        r@ == spec_log_line(request@, status),
{
    let mut out = request.to_owned();
    out.append(" -- ");
    let num = u16_to_string(status);
    out.append(num.as_str());
    out.append("\n");
    proof {
        reveal_strlit(" -- ");
        reveal_strlit("\n");
        assert(out@ =~= spec_log_line(request@, status));
    }
    out
}

} // verus!
