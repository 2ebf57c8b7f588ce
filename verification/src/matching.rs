use vstd::prelude::*;
use crate::rule::Rule;

verus! {

/// `rules[i]` exists and applies to operation `op`.
pub open spec fn matches_at(rules: Seq<Rule>, op: Seq<char>, i: int) -> bool {
    0 <= i < rules.len() && rules[i].selector@ == op
}

/// No committed rule applies to operation `op`.
pub open spec fn no_match(rules: Seq<Rule>, op: Seq<char>) -> bool {
    forall|i: int| 0 <= i < rules.len() ==> (#[trigger] rules[i]).selector@ != op
}

/// `rules[i]` is the earliest-registered rule applying to `op`.
pub open spec fn is_first_match_at(rules: Seq<Rule>, op: Seq<char>, i: int) -> bool {
    &&& matches_at(rules, op, i)
    &&& forall|j: int| 0 <= j < i ==> (#[trigger] rules[j]).selector@ != op
}

/// Match precedence is a function: at most one index is the first match.
pub proof fn lemma_first_match_unique(rules: Seq<Rule>, op: Seq<char>, i: int, j: int)
    requires
        is_first_match_at(rules, op, i),
        is_first_match_at(rules, op, j),
    ensures
        i == j,
{
    if i < j {
        assert(rules[i].selector@ != op);
    }
    if j < i {
        assert(rules[j].selector@ != op);
    }
}

/// Select the earliest-registered rule whose selector equals `operation`.
/// Matching is exact: no wildcards, no payload inspection, and a later rule
/// with the same selector never wins over an earlier one.
pub fn find_first_match(rules: &Vec<Rule>, operation: &String) -> (m: Option<usize>)
    ensures
        match m {
            Some(i) => is_first_match_at(rules@, operation@, i as int),
            None => no_match(rules@, operation@),
        },
{
    let n = rules.len();
    let mut i: usize = 0;
    while i < n
        invariant
            i <= n,
            n == rules@.len(),
            forall|j: int| 0 <= j < i ==> (#[trigger] rules@[j]).selector@ != operation@,
        decreases n - i,
    {
        if rules[i].selector == *operation {
            return Some(i);
        }
        i += 1;
    }
    None
}

} // verus!
