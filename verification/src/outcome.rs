//! The classification of one trial.

use vstd::prelude::*;

verus! {

/// What one trial produced: the property held, or it failed.
///
/// A failure carries the combined size of the generated argument(s) and a
/// textual rendering of them.  Outcomes are immutable once produced; ranking
/// only reorders them.
pub enum Outcome {
    Pass,
    Failure(usize, String),
}

/// Whether the outcome records a passing trial.
pub open spec fn is_pass(o: Outcome) -> bool {
    match o {
        Outcome::Pass => true,
        Outcome::Failure(..) => false,
    }
}

/// The size a failure carries; zero for a pass.
pub open spec fn fail_size(o: Outcome) -> nat {
    match o {
        Outcome::Pass => 0,
        Outcome::Failure(s, _) => s as nat,
    }
}

/// The rendering a failure carries; empty for a pass.
pub open spec fn fail_text(o: Outcome) -> Seq<char> {
    match o {
        Outcome::Pass => Seq::empty(),
        Outcome::Failure(_, r) => r@,
    }
}

/// Every outcome in the batch is a pass.
pub open spec fn all_pass(s: Seq<Outcome>) -> bool {
    forall|i: int| 0 <= i < s.len() ==> is_pass(s[i])
}

/// Every outcome in the batch is a failure.
pub open spec fn all_fail(s: Seq<Outcome>) -> bool {
    forall|i: int| 0 <= i < s.len() ==> !is_pass(s[i])
}

/// The failures of a batch, in collection order.
pub open spec fn failures_of(s: Seq<Outcome>) -> Seq<Outcome>
    decreases s.len(),
{
    if s.len() == 0 {
        Seq::empty()
    } else {
        let rest = failures_of(s.drop_last());
        if is_pass(s.last()) {
            rest
        } else {
            rest.push(s.last())
        }
    }
}

/// A batch has no failures exactly when every outcome passes.
pub proof fn lemma_failures_empty_iff_all_pass(s: Seq<Outcome>)
    ensures
        failures_of(s).len() == 0 <==> all_pass(s),
    decreases s.len(),
{
    if s.len() > 0 {
        lemma_failures_empty_iff_all_pass(s.drop_last());
        assert(forall|i: int| 0 <= i < s.len() - 1 ==> s.drop_last()[i] == s[i]);
        if failures_of(s).len() == 0 {
            assert(is_pass(s.last()));
            assert(forall|i: int| 0 <= i < s.len() ==> is_pass(#[trigger] s[i])) by {
                assert(forall|i: int| 0 <= i < s.len() - 1 ==> is_pass(#[trigger] s.drop_last()[i]));
            }
        } else {
            if all_pass(s) {
                assert(is_pass(s.last()));
                assert(all_pass(s.drop_last()));
            }
        }
    }
}

/// No failure is lost: each failing outcome of the batch stands in the
/// failure list, and only failing outcomes do.
pub proof fn lemma_failures_len(s: Seq<Outcome>)
    ensures
        failures_of(s).len() <= s.len(),
        all_fail(s) ==> failures_of(s).len() == s.len(),
        forall|i: int|
            0 <= i < failures_of(s).len() ==> !is_pass(#[trigger] failures_of(s)[i]),
    decreases s.len(),
{
    if s.len() > 0 {
        lemma_failures_len(s.drop_last());
        if all_fail(s) {
            assert(forall|i: int| 0 <= i < s.len() - 1 ==> s.drop_last()[i] == s[i]);
            assert(all_fail(s.drop_last()));
            assert(!is_pass(s.last()));
        }
    }
}

/// The rendering a failure carries; a pass renders as the empty string.
pub fn result_str(r: Outcome) -> (s: String)
    ensures
        s@ == fail_text(r),
{
    match r {
        Outcome::Pass => String::new(),
        Outcome::Failure(_, text) => text,
    }
}

} // verus!
