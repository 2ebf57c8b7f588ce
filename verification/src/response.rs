use vstd::prelude::*;
use crate::rule::Rule;

verus! {

/// gRPC status code of a successful call.
pub const GRPC_CODE_OK: u32 = 0;

/// gRPC status code synthesized when no rule matches an incoming call, so
/// that a missing stub surfaces as a client-visible error.
pub const GRPC_CODE_UNIMPLEMENTED: u32 = 12;

/// The answer handed back to the transport layer for one incoming call: a
/// status code and the raw response payload bytes. The engine never
/// interprets the payload; it only attaches the bytes a rule carries.
#[derive(Debug)]
pub struct Response {
    /// gRPC status code of the response.
    pub code: u32,
    /// Raw response payload bytes.
    pub body: Vec<u8>,
}

/// The status code a response to a call matching `r` must carry: the code
/// the rule forces, or success when the rule only sets a body.
pub open spec fn rule_response_code(r: Rule) -> u32 {
    match r.status {
        Some(c) => c,
        None => GRPC_CODE_OK,
    }
}

/// The payload a response to a call matching `r` must carry: the bytes the
/// rule holds, or an empty payload.
pub open spec fn rule_response_body(r: Rule) -> Seq<u8> {
    match r.body {
        Some(b) => b@,
        None => Seq::<u8>::empty(),
    }
}

impl Response {
    /// This response is exactly what a call matching `r` is owed.
    pub open spec fn answers_rule(self, r: Rule) -> bool {
        &&& self.code == rule_response_code(r)
        &&& self.body@ == rule_response_body(r)
    }

    /// This response is the fixed fallback for an unmatched call:
    /// "unimplemented" status and an empty payload.
    pub open spec fn is_fallback(self) -> bool {
        &&& self.code == GRPC_CODE_UNIMPLEMENTED
        &&& self.body@ == Seq::<u8>::empty()
    }
}

/// Build the response owed to a call that matched `rule`.
pub fn synthesize_matched(rule: &Rule) -> (resp: Response)
    ensures
        resp.answers_rule(*rule),
{
    let code = match rule.status {
        Some(c) => c,
        None => GRPC_CODE_OK,
    };
    let body = match &rule.body {
        Some(b) => copy_bytes(b),
        None => Vec::new(),
    };
    Response { code, body }
}

/// Build the fixed fallback response for a call no rule matched.
pub fn synthesize_fallback() -> (resp: Response)
    ensures
        resp.is_fallback(),
{
    Response { code: GRPC_CODE_UNIMPLEMENTED, body: Vec::new() }
}

/// Copy a payload byte for byte.
fn copy_bytes(src: &Vec<u8>) -> (out: Vec<u8>)
    ensures
        out@ == src@,
{
    let mut out: Vec<u8> = Vec::new();
    let n = src.len();
    let mut i: usize = 0;
    while i < n
        invariant
            i <= n,
            n == src@.len(),
            out@ == src@.take(i as int),
        decreases n - i,
    {
        out.push(src[i]);
        proof {
            assert(src@.take(i + 1) =~= src@.take(i as int).push(src@[i as int]));
        }
        i += 1;
    }
    proof {
        assert(src@.take(n as int) =~= src@);
    }
    out
}

} // verus!
