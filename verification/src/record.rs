use vstd::prelude::*;

verus! {

/// One incoming call as the recorder saw it: which rule it matched (if any),
/// the operation it invoked, the full address it targeted, and its arrival
/// position among all recorded calls.
#[derive(Debug)]
pub struct CallRecord {
    /// Identity of the rule that matched, or `None` for an unmatched call.
    pub matched_rule_id: Option<u64>,
    /// The operation identifier extracted from the call.
    pub operation: String,
    /// The full address the call targeted, kept for assertion convenience.
    pub endpoint_uri: String,
    /// Monotonic arrival order over all recorded calls.
    pub sequence: u64,
}

impl Clone for CallRecord {
    fn clone(&self) -> (r: Self)
        ensures
            r == *self,
    {
        CallRecord {
            matched_rule_id: self.matched_rule_id,
            operation: self.operation.clone(),
            endpoint_uri: self.endpoint_uri.clone(),
            sequence: self.sequence,
        }
    }
}

/// Error returned by `find_one` when the queried rule has zero or more than
/// one recorded call.
#[derive(PartialEq, Eq, Structural, Clone, Copy, Debug)]
pub struct NotRecordedError;

} // verus!
