//! The trial runner: execute a fixed number of trials, tally the outcomes,
//! rank the collected failures by size, and emit a bounded report.

use std::io::Write;

use vstd::prelude::*;

use crate::outcome::{
    Outcome, all_fail, all_pass, fail_text, failures_of, is_pass,
    lemma_failures_empty_iff_all_pass, lemma_failures_len,
};
use crate::rank::{
    all_below, lemma_rank_sorted, lemma_rank_stable, lemma_rank_wf, rank_indices, rank_spec,
};
use crate::arbitrary::Arbitrary;
use crate::testable::{Prop2, Testable};
use crate::text::{chars_to_string, dec_spec, push_dec, push_str_chars};
use crate::{NUM_TRIALS, SHOW_LIMIT};

verus! {

/// The one-line success notice.
pub open spec fn success_line(d: Seq<char>) -> Seq<char> {
    "+++ OK, passed "@ + dec_spec(NUM_TRIALS as nat) + " tests for "@ + d
}

/// The one-line failure notice.
pub open spec fn fail_header(d: Seq<char>) -> Seq<char> {
    "*** Failed '"@ + d + "' on:"@
}

/// The truncation marker printed when failures are omitted.
pub open spec fn more_line() -> Seq<char> {
    "...and more"@
}

/// The size a failure carries, as the machine word it was collected with.
pub open spec fn fail_size_usize(o: Outcome) -> usize {
    match o {
        Outcome::Pass => 0,
        Outcome::Failure(s, _) => s,
    }
}

/// The sizes of a failure list, in collection order.
pub open spec fn sizes_of(fails: Seq<Outcome>) -> Seq<usize> {
    fails.map_values(|o: Outcome| fail_size_usize(o))
}

/// The renderings the report shows: every failure when there are fewer than
/// `SHOW_LIMIT`, else the `SHOW_LIMIT` smallest by ranked order.
pub open spec fn shown_failures(fails: Seq<Outcome>) -> Seq<Seq<char>> {
    if fails.len() < SHOW_LIMIT as nat {
        fails.map_values(|o: Outcome| fail_text(o))
    } else {
        Seq::new(
            SHOW_LIMIT as nat,
            |i: int| fail_text(fails[rank_spec(sizes_of(fails))[i] as int]),
        )
    }
}

/// The whole report for one batch of outcomes, line by line.
pub open spec fn report_spec(d: Seq<char>, outs: Seq<Outcome>) -> Seq<Seq<char>> {
    if all_pass(outs) {
        seq![success_line(d)]
    } else {
        let fails = failures_of(outs);
        if fails.len() < SHOW_LIMIT as nat {
            seq![fail_header(d)] + shown_failures(fails)
        } else {
            seq![fail_header(d)] + shown_failures(fails) + seq![more_line()]
        }
    }
}

/// With every trial passing, the report is exactly the one success notice.
pub proof fn lemma_report_all_pass(d: Seq<char>, outs: Seq<Outcome>)
    requires
        all_pass(outs),
    ensures
        report_spec(d, outs) == seq![success_line(d)],
{
}

/// With at least one and fewer than `SHOW_LIMIT` failures, the report is the
/// failure notice followed by every failure's rendering, in collection order.
pub proof fn lemma_report_short(d: Seq<char>, outs: Seq<Outcome>)
    requires
        0 < failures_of(outs).len() < SHOW_LIMIT as nat,
    ensures
        report_spec(d, outs).len() == 1 + failures_of(outs).len(),
        report_spec(d, outs)[0] == fail_header(d),
        forall|k: int|
            0 <= k < failures_of(outs).len() ==> report_spec(d, outs)[k + 1] == fail_text(
                failures_of(outs)[k],
            ),
{
    lemma_failures_empty_iff_all_pass(outs);
}

/// With `SHOW_LIMIT` or more failures, the report is the failure notice,
/// exactly `SHOW_LIMIT` renderings whose sizes ascend, and the truncation
/// marker; equal sizes keep their collection order.
pub proof fn lemma_report_truncated(d: Seq<char>, outs: Seq<Outcome>)
    requires
        outs.len() <= usize::MAX,
        failures_of(outs).len() >= SHOW_LIMIT as nat,
    ensures
        report_spec(d, outs).len() == SHOW_LIMIT as nat + 2,
        report_spec(d, outs)[0] == fail_header(d),
        report_spec(d, outs).last() == more_line(),
        forall|k: int|
            0 <= k < SHOW_LIMIT as int ==> report_spec(d, outs)[k + 1] == fail_text(
                failures_of(outs)[rank_spec(sizes_of(failures_of(outs)))[k] as int],
            ),
        forall|p: int, q: int|
            0 <= p < q < SHOW_LIMIT as int ==> fail_size_usize(
                failures_of(outs)[rank_spec(sizes_of(failures_of(outs)))[p] as int],
            ) <= fail_size_usize(
                failures_of(outs)[rank_spec(sizes_of(failures_of(outs)))[q] as int],
            ),
{
    lemma_failures_empty_iff_all_pass(outs);
    lemma_failures_len(outs);
    let fails = failures_of(outs);
    let sizes = sizes_of(fails);
    lemma_rank_wf(sizes);
    lemma_rank_sorted(sizes);
    lemma_rank_stable(sizes);
    assert forall|p: int, q: int| 0 <= p < q < SHOW_LIMIT as int implies fail_size_usize(
        fails[rank_spec(sizes)[p] as int],
    ) <= fail_size_usize(fails[rank_spec(sizes)[q] as int]) by {
        assert(sizes[rank_spec(sizes)[p] as int] <= sizes[rank_spec(sizes)[q] as int]);
        assert(sizes[rank_spec(sizes)[p] as int] == fail_size_usize(
            fails[rank_spec(sizes)[p] as int],
        ));
        assert(sizes[rank_spec(sizes)[q] as int] == fail_size_usize(
            fails[rank_spec(sizes)[q] as int],
        ));
    }
}

/// Whether this outcome records a passing trial.
fn outcome_is_pass(o: &Outcome) -> (r: bool)
    ensures
        r == is_pass(*o),
{
    match o {
        Outcome::Pass => true,
        Outcome::Failure(..) => false,
    }
}

/// Execute exactly `NUM_TRIALS` independent trials and collect their
/// outcomes, in order.  One trial's generation never depends on a prior
/// trial's result.
pub fn run_trials<F: Testable>(f: &F) -> (r: Vec<Outcome>)
    requires
        f.wf(),
    ensures
        r@.len() == NUM_TRIALS as nat,
        forall|k: int| 0 <= k < r@.len() ==> f.outcome_ok(#[trigger] r@[k]),
        f.must_pass() ==> all_pass(r@),
        f.must_fail() ==> all_fail(r@),
{
    let mut outcomes: Vec<Outcome> = Vec::new();
    let mut i: usize = 0;
    while i < NUM_TRIALS
        invariant
            f.wf(),
            i <= NUM_TRIALS,
            outcomes@.len() == i as nat,
            forall|k: int| 0 <= k < outcomes@.len() ==> f.outcome_ok(#[trigger] outcomes@[k]),
            f.must_pass() ==> all_pass(outcomes@),
            f.must_fail() ==> all_fail(outcomes@),
        decreases NUM_TRIALS - i,
    {
        let o = f.apply();
        outcomes.push(o);
        i += 1;
    }
    outcomes
}

/// The boolean verdict of a batch: true exactly when every outcome passes.
pub fn verdict_of(outcomes: &Vec<Outcome>) -> (r: bool)
    ensures
        r == all_pass(outcomes@),
{
    let mut i: usize = 0;
    while i < outcomes.len()
        invariant
            i <= outcomes@.len(),
            forall|k: int| 0 <= k < i ==> is_pass(#[trigger] outcomes@[k]),
        decreases outcomes@.len() - i,
    {
        if !outcome_is_pass(&outcomes[i]) {
            assert(!is_pass(outcomes@[i as int]));
            return false;
        }
        i += 1;
    }
    true
}

/// Render the report for one batch of outcomes, line by line, without
/// printing it.
#[verifier::loop_isolation(false)]
pub fn report_lines(description: &str, outcomes: &Vec<Outcome>) -> (r: Vec<String>)
    ensures
        r@.len() == report_spec(description@, outcomes@).len(),
        forall|i: int|
            0 <= i < r@.len() ==> (#[trigger] r@[i])@ == report_spec(description@, outcomes@)[i],
{
    let ghost d = description@;
    let ghost outs = outcomes@;
    let ghost fails = failures_of(outs);

    // collect the failures' sizes and renderings, in collection order
    let mut sizes: Vec<usize> = Vec::new();
    let mut texts: Vec<String> = Vec::new();
    let mut i: usize = 0;
    while i < outcomes.len()
        invariant
            i <= outs.len(),
            outs == outcomes@,
            sizes@.len() == failures_of(outs.take(i as int)).len(),
            texts@.len() == failures_of(outs.take(i as int)).len(),
            forall|k: int|
                0 <= k < sizes@.len() ==> #[trigger] sizes@[k] == fail_size_usize(
                    failures_of(outs.take(i as int))[k],
                ),
            forall|k: int|
                0 <= k < texts@.len() ==> (#[trigger] texts@[k])@ == fail_text(
                    failures_of(outs.take(i as int))[k],
                ),
        decreases outs.len() - i,
    {
        proof {
            assert(outs.take(i + 1).drop_last() =~= outs.take(i as int));
            assert(outs.take(i + 1).last() == outs[i as int]);
        }
        match &outcomes[i] {
            Outcome::Pass => {},
            Outcome::Failure(s, text) => {
                sizes.push(*s);
                texts.push(text.clone());
            },
        }
        i += 1;
    }
    proof {
        assert(outs.take(outs.len() as int) =~= outs);
    }

    let mut lines: Vec<String> = Vec::new();
    if sizes.len() == 0 {
        proof {
            lemma_failures_empty_iff_all_pass(outs);
        }
        let mut cs: Vec<char> = Vec::new();
        push_str_chars(&mut cs, "+++ OK, passed ");
        push_dec(&mut cs, NUM_TRIALS);
        push_str_chars(&mut cs, " tests for ");
        push_str_chars(&mut cs, description);
        proof {
            assert(cs@ =~= success_line(d));
        }
        lines.push(chars_to_string(&cs));
        return lines;
    }
    proof {
        lemma_failures_empty_iff_all_pass(outs);
    }

    let mut cs: Vec<char> = Vec::new();
    push_str_chars(&mut cs, "*** Failed '");
    push_str_chars(&mut cs, description);
    push_str_chars(&mut cs, "' on:");
    proof {
        assert(cs@ =~= fail_header(d));
    }
    lines.push(chars_to_string(&cs));

    if sizes.len() < SHOW_LIMIT {
        // few enough to show all, in collection order
        let mut k: usize = 0;
        while k < texts.len()
            invariant
                k <= texts@.len(),
                lines@.len() == 1 + k as nat,
                lines@[0]@ == fail_header(d),
                forall|j: int| 1 <= j < 1 + k ==> (#[trigger] lines@[j])@ == texts@[j - 1]@,
            decreases texts@.len() - k,
        {
            lines.push(texts[k].clone());
            k += 1;
        }
        proof {
            assert(fails.len() < SHOW_LIMIT as nat);
            assert(report_spec(d, outs) == seq![fail_header(d)] + shown_failures(fails));
            assert forall|j: int| 0 <= j < lines@.len() implies (#[trigger] lines@[j])@
                == report_spec(d, outs)[j] by {
                if j > 0 {
                    assert(lines@[j]@ == texts@[j - 1]@);
                    assert(texts@[j - 1]@ == fail_text(fails[j - 1]));
                    assert(shown_failures(fails)[j - 1] == fail_text(fails[j - 1]));
                    assert(report_spec(d, outs)[j] == shown_failures(fails)[j - 1]);
                }
            }
        }
        lines
    } else {
        // rank the failures ascending by size and show the smallest
        proof {
            assert(sizes@ =~= sizes_of(fails));
        }
        let order = rank_indices(&sizes);
        let mut k: usize = 0;
        while k < SHOW_LIMIT
            invariant
                k <= SHOW_LIMIT,
                order@ == rank_spec(sizes_of(fails)),
                order@.len() == texts@.len(),
                all_below(order@, texts@.len()),
                lines@.len() == 1 + k as nat,
                lines@[0]@ == fail_header(d),
                forall|j: int|
                    1 <= j < 1 + k ==> (#[trigger] lines@[j])@ == fail_text(
                        fails[order@[j - 1] as int],
                    ),
            decreases SHOW_LIMIT - k,
        {
            let idx = order[k];
            lines.push(texts[idx].clone());
            k += 1;
        }
        lines.push("...and more".to_owned());
        proof {
            assert(report_spec(d, outs) == seq![fail_header(d)] + shown_failures(fails) + seq![
                more_line(),
            ]);
            assert forall|j: int| 0 <= j < lines@.len() implies (#[trigger] lines@[j])@
                == report_spec(d, outs)[j] by {
                if 1 <= j < 1 + SHOW_LIMIT as int {
                    assert(lines@[j]@ == fail_text(fails[order@[j - 1] as int]));
                    assert(shown_failures(fails)[j - 1] == fail_text(
                        fails[rank_spec(sizes_of(fails))[j - 1] as int],
                    ));
                    assert(report_spec(d, outs)[j] == shown_failures(fails)[j - 1]);
                } else if j == 1 + SHOW_LIMIT as int {
                    assert(lines@[j]@ == more_line());
                    assert(report_spec(d, outs)[j] == more_line());
                }
            }
        }
        lines
    }
}

/// Relies on std::io::Stdout and the writeln macro: writes one line to
/// standard output.
#[verifier::external_body]
fn print_line(s: &str) {
    let _ = writeln!(std::io::stdout(), "{}", s);
}

fn quick_check_internal<F: Testable>(description: &str, f: F, silent: bool) -> (r: bool)
    requires
        f.wf(),
    ensures
        f.must_pass() ==> r,
        f.must_fail() ==> !r,
{
    let outcomes = run_trials(&f);
    let verdict = verdict_of(&outcomes);
    if !silent {
        let lines = report_lines(description, &outcomes);
        let mut i: usize = 0;
        while i < lines.len()
            decreases lines@.len() - i,
        {
            print_line(lines[i].as_str());
            i += 1;
        }
    }
    proof {
        if f.must_fail() {
            assert(!is_pass(outcomes@[0]));
        }
    }
    verdict
}

/// Run `NUM_TRIALS` trials of the property and report the result on standard
/// output; the returned verdict is true exactly when every trial passed.
pub fn quick_check<F: Testable>(description: &str, f: F) -> (r: bool)
    requires
        f.wf(),
    ensures
        f.must_pass() ==> r,
        f.must_fail() ==> !r,
{
    quick_check_internal(description, f, false)
}

/// Run `NUM_TRIALS` trials of the property without printing anything; the
/// returned verdict is true exactly when every trial passed.
pub fn quick_check_silent<F: Testable>(description: &str, f: F) -> (r: bool)
    requires
        f.wf(),
    ensures
        f.must_pass() ==> r,
        f.must_fail() ==> !r,
{
    quick_check_internal(description, f, true)
}

/// Run `NUM_TRIALS` trials of a two-argument property and report on standard
/// output.  The same runner drives it as drives one-argument properties; a
/// failure's size is the sum of both arguments' sizes.
pub fn quick_check2<T: Arbitrary, U: Arbitrary, F: Fn(&T, &U) -> bool>(
    description: &str,
    f: F,
) -> (r: bool)
    requires
        forall|t: &T, u: &U| call_requires(f, (t, u)),
    ensures
        (forall|t: &T, u: &U, b: bool|
            t.can_generate() && u.can_generate() && #[trigger] call_ensures(f, (t, u), b) ==> b)
            ==> r,
        (forall|t: &T, u: &U, b: bool|
            t.can_generate() && u.can_generate() && #[trigger] call_ensures(f, (t, u), b) ==> !b)
            ==> !r,
{
    let p = Prop2::new(f);
    proof {
        assert(p.f == f);
    }
    quick_check_internal(description, p, false)
}

} // verus!
