use vstd::prelude::*;

verus! {

/// One committed stub declaration: the operation selector it applies to, an
/// optional forced status code, an optional canned payload, and the identity
/// under which the calls it matched can be retrieved later.
pub struct Rule {
    /// Unique identity assigned at commit time, never reused.
    pub id: u64,
    /// The operation identifier this rule applies to (exact match only).
    pub selector: String,
    /// Status code forced on matched calls; success when absent but a body is set.
    pub status: Option<u32>,
    /// Raw response payload returned to matched calls; empty when absent.
    pub body: Option<Vec<u8>>,
}

impl Rule {
    /// A rule may only be committed once it forces a status or carries a body.
    pub open spec fn is_valid(self) -> bool {
        self.status is Some || self.body is Some
    }
}

/// Error returned when a builder with neither a status nor a body is
/// committed to the store.
#[derive(PartialEq, Eq, Structural, Clone, Copy, Debug)]
pub struct ValidationError;

/// Incremental, immutable construction of a rule: a selector, then an
/// optional status and/or payload. Only materialized into the rule store on
/// an explicit commit (`mount`), so a partial builder can never be matched.
pub struct RequestBuilder {
    /// The selector the finished rule will apply to.
    pub path: String,
    /// The status code the finished rule will force, if any.
    pub status_code: Option<u32>,
    /// The payload the finished rule will return, if any.
    pub result: Option<Vec<u8>>,
}

impl RequestBuilder {
    /// Start a builder for calls whose operation equals `path`.
    pub fn given(path: &str) -> (b: RequestBuilder)
        ensures
            b.path@ == path@,
            b.status_code is None,
            b.result is None,
    {
        RequestBuilder { path: path.to_owned(), status_code: None, result: None }
    }

    /// Start an empty builder; the selector is supplied later with `path`.
    pub fn when() -> (b: RequestBuilder)
        ensures
            b.path@ == Seq::<char>::empty(),
            b.status_code is None,
            b.result is None,
    {
        RequestBuilder { path: String::new(), status_code: None, result: None }
    }

    /// Set the selector the finished rule will apply to.
    pub fn path(self, path: &str) -> (b: RequestBuilder)
        ensures
            b.path@ == path@,
            b.status_code == self.status_code,
            b.result == self.result,
    {
        RequestBuilder { path: path.to_owned(), ..self }
    }

    /// Force `status` on every call the finished rule matches.
    pub fn return_status(self, status: u32) -> (b: RequestBuilder)
        ensures
            b.path == self.path,
            b.status_code == Some(status),
            b.result == self.result,
    {
        RequestBuilder { status_code: Some(status), ..self }
    }

    /// Return `body` to every call the finished rule matches.
    pub fn return_body(self, body: Vec<u8>) -> (b: RequestBuilder)
        ensures
            b.path == self.path,
            b.status_code == self.status_code,
            b.result == Some(body),
    {
        RequestBuilder { result: Some(body), ..self }
    }
}

} // verus!
