use vstd::prelude::*;
use crate::matching::find_first_match;
use crate::matching::is_first_match_at;
use crate::matching::lemma_first_match_unique;
use crate::matching::matches_at;
use crate::matching::no_match;
use crate::record::CallRecord;
use crate::record::NotRecordedError;
use crate::response::synthesize_fallback;
use crate::response::synthesize_matched;
use crate::response::Response;
use crate::rule::RequestBuilder;
use crate::rule::Rule;
use crate::rule::ValidationError;

verus! {

/// A record belongs to the query for rule identity `id`.
pub open spec fn is_record_for(rec: CallRecord, id: u64) -> bool {
    rec.matched_rule_id == Some(id)
}

/// The records among `recs` that matched rule identity `id`, in arrival order.
pub open spec fn records_matching(recs: Seq<CallRecord>, id: u64) -> Seq<CallRecord> {
    recs.filter(|rec: CallRecord| is_record_for(rec, id))
}

/// A recorded call never contradicts the rules: when it names a matched
/// rule, that rule exists and its selector equals the recorded operation.
/// (Rules are immutable once committed, so this survives later commits.)
pub open spec fn record_consistent(rules: Seq<Rule>, rec: CallRecord) -> bool {
    match rec.matched_rule_id {
        Some(id) => id < rules.len() && rules[id as int].selector@ == rec.operation@,
        None => true,
    }
}

/// The mock engine: one rule store and one call recorder, wired behind the
/// request-handling entry point (`handle`) consumed by the transport layer
/// and the setup/query surface (`setup`, `find`, `find_one`) consumed by
/// test authors. Each server instance owns its store exclusively; nothing is
/// shared across instances. A transport that drives it from several tasks
/// serializes the calls (the engine itself never blocks on I/O), which makes
/// matching and recording for one call atomic to every observer.
pub struct MockGrpcServer {
    /// The port the surrounding transport serves this engine on.
    pub port: u16,
    /// All committed rules, in registration order; index equals identity.
    pub rules: Vec<Rule>,
    /// All recorded calls, in arrival order; index equals sequence number.
    pub records: Vec<CallRecord>,
}

impl MockGrpcServer {
    /// The store is well formed: rule identities equal their registration
    /// index, every committed rule passed validation, record sequence
    /// numbers equal their arrival index, and records stay consistent with
    /// the rules they name.
    pub open spec fn wf(self) -> bool {
        &&& forall|i: int|
            0 <= i < self.rules@.len() ==> (#[trigger] self.rules@[i]).id == i
        &&& forall|i: int|
            0 <= i < self.rules@.len() ==> (#[trigger] self.rules@[i]).is_valid()
        &&& forall|i: int|
            0 <= i < self.records@.len() ==> (#[trigger] self.records@[i]).sequence == i
        &&& forall|i: int|
            0 <= i < self.records@.len() ==> record_consistent(
                self.rules@,
                #[trigger] self.records@[i],
            )
    }

    /// The recorded calls that matched rule identity `id`, in arrival order.
    pub open spec fn records_for(self, id: u64) -> Seq<CallRecord> {
        records_matching(self.records@, id)
    }

    /// A fresh engine for a server on `port`: no rules, no recorded calls.
    pub fn new(port: u16) -> (s: Self)
        ensures
            s.wf(),
            s.port == port,
            s.rules@ == Seq::<Rule>::empty(),
            s.records@ == Seq::<CallRecord>::empty(),
    {
        MockGrpcServer { port, rules: Vec::new(), records: Vec::new() }
    }

    /// What one commit attempt does to the engine: a valid builder is
    /// appended as a rule under the next free identity; an empty one is
    /// rejected and leaves the engine untouched — if and only if.
    pub open spec fn commit_outcome(
        pre: Self,
        post: Self,
        b: RequestBuilder,
        res: Result<u64, ValidationError>,
    ) -> bool {
        &&& post.port == pre.port
        &&& post.records@ == pre.records@
        &&& match res {
            Ok(id) => {
                &&& b.status_code is Some || b.result is Some
                &&& id == pre.rules@.len()
                &&& post.rules@ == pre.rules@.push(rule_of_builder(b, id))
            },
            Err(e) => {
                &&& b.status_code is None
                &&& b.result is None
                &&& e == ValidationError
                &&& post == pre
            },
        }
    }

    /// Validate `r` and commit it to the rule store, returning the identity
    /// under which its matched calls can be queried later.
    pub fn setup(&mut self, r: RequestBuilder) -> (res: Result<u64, ValidationError>)
        requires
            old(self).wf(),
        ensures
            final(self).wf(),
            Self::commit_outcome(*old(self), *final(self), r, res),
    {
        r.mount(self)
    }

    /// The port the surrounding transport serves this engine on.
    pub fn port(&self) -> (p: u16)
        ensures
            p == self.port,
    {
        self.port
    }

    /// A snapshot of every committed rule, in registration order.
    pub fn all_rules(&self) -> (rules: &Vec<Rule>)
        ensures
            rules@ == self.rules@,
    {
        &self.rules
    }

    /// What handling one decoded call does to the engine: the rules are
    /// untouched; exactly one record is appended, carrying the call's
    /// operation, address and arrival sequence; and the response plus the
    /// record's matched identity are determined by the earliest-registered
    /// matching rule — or are the fixed fallback and "unmatched" when no
    /// rule's selector equals the operation.
    pub open spec fn handle_transition(
        pre: Self,
        post: Self,
        op: Seq<char>,
        uri: Seq<char>,
        resp: Response,
    ) -> bool {
        &&& post.port == pre.port
        &&& post.rules@ == pre.rules@
        &&& post.records@.len() == pre.records@.len() + 1
        &&& post.records@ == pre.records@.push(post.records@.last())
        &&& {
            let rec = post.records@.last();
            &&& rec.operation@ == op
            &&& rec.endpoint_uri@ == uri
            &&& rec.sequence == pre.records@.len()
            &&& if no_match(pre.rules@, op) {
                &&& rec.matched_rule_id is None
                &&& resp.is_fallback()
            } else {
                exists|i: int|
                    {
                        &&& #[trigger] is_first_match_at(pre.rules@, op, i)
                        &&& rec.matched_rule_id == Some(pre.rules@[i].id)
                        &&& resp.answers_rule(pre.rules@[i])
                    }
            }
        }
    }

    /// The request-handling entry point the transport layer drives: snapshot
    /// the rules, match the call's operation, record the call, synthesize
    /// the response. The record is present before the response is returned,
    /// so a query can never see a sent response without its record.
    pub fn handle(&mut self, operation: &String, endpoint_uri: &String) -> (resp: Response)
        requires
            old(self).wf(),
        ensures
            final(self).wf(),
            Self::handle_transition(
                *old(self),
                *final(self),
                operation@,
                endpoint_uri@,
                resp,
            ),
    {
        let matched = find_first_match(&self.rules, operation);
        let (matched_rule_id, resp): (Option<u64>, Response) = match matched {
            Some(i) => {
                let rule = &self.rules[i];
                (Some(rule.id), synthesize_matched(rule))
            },
            None => (None, synthesize_fallback()),
        };
        let sequence = self.records.len() as u64;
        let rec = CallRecord {
            matched_rule_id,
            operation: operation.clone(),
            endpoint_uri: endpoint_uri.clone(),
            sequence,
        };
        self.records.push(rec);
        resp
    }

    /// All recorded calls that matched rule identity `id`, in arrival order;
    /// `None` when the rule matched no call at all.
    pub fn find(&self, id: u64) -> (res: Option<Vec<CallRecord>>)
        ensures
            match res {
                Some(found) => found@ == self.records_for(id) && found@.len() > 0,
                None => self.records_for(id).len() == 0,
            },
    {
        let mut found: Vec<CallRecord> = Vec::new();
        let n = self.records.len();
        let mut i: usize = 0;
        while i < n
            invariant
                i <= n,
                n == self.records@.len(),
                found@ == records_matching(self.records@.take(i as int), id),
            decreases n - i,
        {
            proof {
                assert(self.records@.take(i + 1) =~= self.records@.take(i as int).push(
                    self.records@[i as int],
                ));
                lemma_records_matching_push(self.records@.take(i as int), self.records@[i as int], id);
            }
            let rec = &self.records[i];
            let hit = match rec.matched_rule_id {
                Some(rid) => rid == id,
                None => false,
            };
            if hit {
                found.push(rec.clone());
            }
            i += 1;
        }
        proof {
            assert(self.records@.take(n as int) =~= self.records@);
        }
        if found.len() == 0 {
            None
        } else {
            Some(found)
        }
    }

    /// The single recorded call that matched rule identity `id`. Strictly
    /// for the one-call-expected case: fails with `NotRecordedError` if and
    /// only if zero or more than one call matched.
    pub fn find_one(&self, id: u64) -> (res: Result<CallRecord, NotRecordedError>)
        ensures
            match res {
                Ok(rec) => self.records_for(id).len() == 1 && rec == self.records_for(id)[0],
                Err(e) => self.records_for(id).len() != 1 && e == NotRecordedError,
            },
    {
        match self.find(id) {
            Some(found) => {
                if found.len() == 1 {
                    Ok(found[0].clone())
                } else {
                    Err(NotRecordedError)
                }
            },
            None => Err(NotRecordedError),
        }
    }
}

/// The sequence numbers of `recs` are strictly increasing, hence pairwise
/// distinct and in arrival order.
pub open spec fn sequences_increasing(recs: Seq<CallRecord>) -> bool {
    forall|i: int, j: int|
        0 <= i < j < recs.len() ==> (#[trigger] recs[i]).sequence < (#[trigger] recs[j]).sequence
}

/// Filtering the records for one rule keeps only records of the original
/// sequence and keeps strictly increasing sequence numbers increasing.
proof fn lemma_matching_preserves_order(recs: Seq<CallRecord>, id: u64)
    requires
        sequences_increasing(recs),
    ensures
        sequences_increasing(records_matching(recs, id)),
        forall|k: int|
            0 <= k < records_matching(recs, id).len() ==> recs.contains(
                #[trigger] records_matching(recs, id)[k],
            ),
    decreases recs.len(),
{
    reveal(Seq::filter);
    if recs.len() > 0 {
        let prefix = recs.drop_last();
        assert(sequences_increasing(prefix));
        lemma_matching_preserves_order(prefix, id);
        let fprefix = records_matching(prefix, id);
        let f = records_matching(recs, id);
        assert forall|k: int| 0 <= k < f.len() implies recs.contains(f[k]) by {
            if k < fprefix.len() {
                assert(f[k] == fprefix[k]);
                assert(prefix.contains(fprefix[k]));
                let m = choose|m: int| 0 <= m < prefix.len() && prefix[m] == fprefix[k];
                assert(recs[m] == f[k]);
            } else {
                assert(f[k] == recs.last());
                assert(recs[recs.len() - 1] == f[k]);
            }
        }
        assert forall|i: int, j: int|
            0 <= i < j < f.len() implies (#[trigger] f[i]).sequence < (#[trigger] f[j]).sequence by {
            if j < fprefix.len() {
                assert(f[i] == fprefix[i] && f[j] == fprefix[j]);
            } else {
                assert(f[j] == recs.last());
                assert(f[i] == fprefix[i]);
                assert(prefix.contains(fprefix[i]));
                let m = choose|m: int| 0 <= m < prefix.len() && prefix[m] == fprefix[i];
                assert(recs[m] == f[i]);
                assert(recs[m].sequence < recs[recs.len() - 1].sequence);
            }
        }
    }
}

/// Law: the records reported for any rule stand in arrival order — their
/// sequence numbers are strictly increasing, so no two are the same call.
pub proof fn lemma_records_for_in_arrival_order(s: MockGrpcServer, id: u64)
    requires
        s.wf(),
    ensures
        sequences_increasing(s.records_for(id)),
{
    assert(sequences_increasing(s.records@));
    lemma_matching_preserves_order(s.records@, id);
}

/// Law: a call no committed rule matches always gets the fixed fallback
/// response — "unimplemented" status, empty payload — and is recorded as
/// unmatched, every time.
pub proof fn lemma_unmatched_call_gets_fallback(
    pre: MockGrpcServer,
    post: MockGrpcServer,
    op: Seq<char>,
    uri: Seq<char>,
    resp: Response,
)
    requires
        MockGrpcServer::handle_transition(pre, post, op, uri, resp),
        no_match(pre.rules@, op),
    ensures
        resp.is_fallback(),
        post.records@.last().matched_rule_id is None,
{
}

/// Law: a setup attempt with neither status nor body fails with
/// `ValidationError` and leaves the engine exactly as it was, so
/// subsequent traffic is unaffected.
pub proof fn lemma_rejected_setup_changes_nothing(
    pre: MockGrpcServer,
    post: MockGrpcServer,
    b: RequestBuilder,
    res: Result<u64, ValidationError>,
)
    requires
        MockGrpcServer::commit_outcome(pre, post, b, res),
        b.status_code is None,
        b.result is None,
    ensures
        res == Err::<u64, ValidationError>(ValidationError),
        post == pre,
{
}

/// Law: a call matching a rule is answered with exactly that rule's
/// configured status and payload, appends exactly one record to that rule's
/// query result, and leaves every other rule's query result unchanged.
pub proof fn lemma_matching_call_appends_one_record(
    pre: MockGrpcServer,
    post: MockGrpcServer,
    op: Seq<char>,
    uri: Seq<char>,
    resp: Response,
    i: int,
)
    requires
        MockGrpcServer::handle_transition(pre, post, op, uri, resp),
        is_first_match_at(pre.rules@, op, i),
    ensures
        resp.answers_rule(pre.rules@[i]),
        post.records_for(pre.rules@[i].id) == pre.records_for(pre.rules@[i].id).push(
            post.records@.last(),
        ),
        forall|other: u64|
            other != pre.rules@[i].id ==> post.records_for(other) == pre.records_for(other),
{
    let rec = post.records@.last();
    assert(!no_match(pre.rules@, op)) by {
        assert(matches_at(pre.rules@, op, i));
    }
    let w = choose|w: int|
        {
            &&& #[trigger] is_first_match_at(pre.rules@, op, w)
            &&& rec.matched_rule_id == Some(pre.rules@[w].id)
            &&& resp.answers_rule(pre.rules@[w])
        };
    lemma_first_match_unique(pre.rules@, op, i, w);
    lemma_records_matching_push(pre.records@, rec, pre.rules@[i].id);
    assert forall|other: u64|
        other != pre.rules@[i].id implies post.records_for(other) == pre.records_for(other) by {
        lemma_records_matching_push(pre.records@, rec, other);
    }
}

/// Law: invoking the same operation twice in a row yields two independent
/// records under the same matched identity with strictly increasing
/// sequence numbers, and both calls receive identical responses.
pub proof fn lemma_repeated_invocation(
    s0: MockGrpcServer,
    s1: MockGrpcServer,
    s2: MockGrpcServer,
    op: Seq<char>,
    uri1: Seq<char>,
    uri2: Seq<char>,
    r1: Response,
    r2: Response,
)
    requires
        MockGrpcServer::handle_transition(s0, s1, op, uri1, r1),
        MockGrpcServer::handle_transition(s1, s2, op, uri2, r2),
    ensures
        r2.code == r1.code,
        r2.body@ == r1.body@,
        s2.records@.len() == s0.records@.len() + 2,
        ({
            let first = s2.records@[s0.records@.len() as int];
            let second = s2.records@[s0.records@.len() as int + 1];
            &&& first.matched_rule_id == second.matched_rule_id
            &&& first.sequence < second.sequence
        }),
{
    let rec1 = s1.records@.last();
    let rec2 = s2.records@.last();
    assert(s2.records@[s0.records@.len() as int] == rec1);
    assert(s2.records@[s0.records@.len() as int + 1] == rec2);
    if no_match(s0.rules@, op) {
    } else {
        let i1 = choose|w: int|
            {
                &&& #[trigger] is_first_match_at(s0.rules@, op, w)
                &&& rec1.matched_rule_id == Some(s0.rules@[w].id)
                &&& r1.answers_rule(s0.rules@[w])
            };
        let i2 = choose|w: int|
            {
                &&& #[trigger] is_first_match_at(s1.rules@, op, w)
                &&& rec2.matched_rule_id == Some(s1.rules@[w].id)
                &&& r2.answers_rule(s1.rules@[w])
            };
        lemma_first_match_unique(s0.rules@, op, i1, i2);
    }
}

/// Appending one record extends a rule's query result by exactly that
/// record when it matched the rule, and leaves it unchanged otherwise.
pub proof fn lemma_records_matching_push(recs: Seq<CallRecord>, rec: CallRecord, id: u64)
    ensures
        records_matching(recs.push(rec), id) == if is_record_for(rec, id) {
            records_matching(recs, id).push(rec)
        } else {
            records_matching(recs, id)
        },
{
    reveal(Seq::filter);
    let pushed = recs.push(rec);
    assert(pushed.drop_last() =~= recs);
    assert(pushed.last() == rec);
}

/// The rule a builder materializes into when committed under identity `id`.
pub open spec fn rule_of_builder(b: RequestBuilder, id: u64) -> Rule {
    Rule { id, selector: b.path, status: b.status_code, body: b.result }
}

impl RequestBuilder {
    /// Commit this builder into `s`'s rule store. Fails with
    /// `ValidationError` — adding nothing — unless a status or a body is set.
    pub fn mount(self, s: &mut MockGrpcServer) -> (res: Result<u64, ValidationError>)
        requires
            old(s).wf(),
        ensures
            final(s).wf(),
            MockGrpcServer::commit_outcome(*old(s), *final(s), self, res),
    {
        if self.status_code.is_none() && self.result.is_none() {
            return Err(ValidationError);
        }
        let id = s.rules.len() as u64;
        let rule = Rule { id, selector: self.path, status: self.status_code, body: self.result };
        s.rules.push(rule);
        proof {
            assert forall|i: int| 0 <= i < s.records@.len() implies record_consistent(
                s.rules@,
                #[trigger] s.records@[i],
            ) by {
                assert(record_consistent(old(s).rules@, s.records@[i]));
            }
        }
        Ok(id)
    }
}

} // verus!
