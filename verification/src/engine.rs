//! The execution engine: runs one case and classifies how it ended, and
//! drives a whole run over a registry, one case after the other.

use vstd::prelude::*;
use crate::outcome::{
    classified, classify, missing_termination_message, Outcome, OutcomeView, Termination,
};
use crate::registry::{Registry, TestCase};
use crate::report::{lemma_collected_prefix, lemma_place_of, Report, ReportBuilder};

verus! {

/// Whether `outcome` classifies some way in which the procedure of `case`
/// can end.
pub open spec fn is_outcome_of<P: Fn() -> Termination>(case: TestCase<P>, outcome: OutcomeView) -> bool {
    exists|t: Termination| #[trigger]
        call_ensures(case.procedure, (), t) && outcome == classified(
            case.expect_abnormal_termination,
            t@,
        )
}

/// Whether the procedure of `case` can only return normally.
pub open spec fn always_returns<P: Fn() -> Termination>(case: TestCase<P>) -> bool {
    forall|t: Termination| #[trigger] call_ensures(case.procedure, (), t) ==> t@ is Returned
}

/// Whether the procedure of `case` can only end by raising a signal.
pub open spec fn always_raises<P: Fn() -> Termination>(case: TestCase<P>) -> bool {
    forall|t: Termination| #[trigger] call_ensures(case.procedure, (), t) ==> t@ is Raised
}

/// Whether the procedure of `case` can only end in a fatal abort.
pub open spec fn always_aborts<P: Fn() -> Termination>(case: TestCase<P>) -> bool {
    forall|t: Termination| #[trigger] call_ensures(case.procedure, (), t) ==> t@ is Aborted
}

/// Whether the procedure of `case` cannot end in a fatal abort.
pub open spec fn never_aborts<P: Fn() -> Termination>(case: TestCase<P>) -> bool {
    forall|t: Termination| #[trigger] call_ensures(case.procedure, (), t) ==> !(t@ is Aborted)
}

/// Whether `b` is the first of `cases` that can abort, and cannot but abort.
pub open spec fn aborts_first_at<P: Fn() -> Termination>(cases: Seq<TestCase<P>>, b: int) -> bool {
    &&& 0 <= b < cases.len()
    &&& always_aborts(cases[b])
    &&& forall|j: int| 0 <= j < b ==> never_aborts(#[trigger] cases[j])
}

/// Runs the procedure of `case` once and classifies how it ended. A case
/// that returns normally passes unless it was expected to terminate
/// abnormally; a case that raises a signal passes exactly if it was.
pub fn run<P: Fn() -> Termination>(case: &TestCase<P>) -> (outcome: Outcome)
    requires
        call_requires(case.procedure, ()),
    ensures
        is_outcome_of(*case, outcome@),
        (always_returns(*case) && !case.expect_abnormal_termination) ==> outcome@
            == OutcomeView::Passed,
        (always_raises(*case) && case.expect_abnormal_termination) ==> outcome@
            == OutcomeView::Passed,
        (always_returns(*case) && case.expect_abnormal_termination) ==> outcome@
            == OutcomeView::Failed(missing_termination_message()),
{
    let termination = (case.procedure)();
    classify(case.expect_abnormal_termination, termination)
}

/// Runs the cases of `registry` one after the other, in registration order,
/// and reports their outcomes in that order. A fatal abort ends the run: the
/// report then holds the cases before it and the aborted case, and none of
/// those behind it.
pub fn run_all<P: Fn() -> Termination>(registry: &Registry<P>) -> (report: Report)
    requires
        registry.wf(),
        forall|i: int|
            0 <= i < registry.cases().len() ==> call_requires(
                (#[trigger] registry.cases()[i]).procedure,
                (),
            ),
    ensures
        report@.entries.len() <= registry.cases().len(),
        forall|i: int|
            0 <= i < report@.entries.len() ==> (#[trigger] report@.entries[i]).0
                == registry.cases()[i].name@ && is_outcome_of(
                registry.cases()[i],
                report@.entries[i].1,
            ),
        forall|i: int|
            0 <= i < report@.entries.len() - 1 ==> !((#[trigger] report@.entries[i]).1
                is ProcessAborted),
        report@.truncated <==> (report@.entries.len() > 0 && report@.entries.last().1
            is ProcessAborted),
        !report@.truncated ==> report@.entries.len() == registry.cases().len(),
        forall|b: int| #[trigger]
            aborts_first_at(registry.cases(), b) ==> (report@.truncated && report@.entries.len()
                == b + 1),
{
    let cases = registry.all();
    let mut builder = ReportBuilder::begin(registry.case_names());
    let n = cases.len();
    let mut i: usize = 0;
    let mut stopped = false;
    while i < n && !stopped
        invariant
            n == cases.len(),
            cases@ == registry.cases(),
            registry.wf(),
            forall|j: int|
                0 <= j < n ==> call_requires((#[trigger] registry.cases()[j]).procedure, ()),
            i <= n,
            builder@.places.len() == n,
            builder@.aborted == stopped,
            forall|j: int| 0 <= j < n ==> (#[trigger] builder@.places[j]).0 == cases[j].name@,
            forall|j: int|
                0 <= j < i ==> (#[trigger] builder@.places[j]).1 is Some && is_outcome_of(
                    cases[j],
                    builder@.places[j].1->Some_0,
                ),
            forall|j: int| i <= j < n ==> (#[trigger] builder@.places[j]).1 is None,
            forall|j: int|
                0 <= j < i - 1 ==> !((#[trigger] builder@.places[j]).1->Some_0 is ProcessAborted),
            stopped <==> i > 0 && builder@.places[i - 1].1->Some_0 is ProcessAborted,
        decreases n - i,
    {
        let outcome = run(&cases[i]);
        stopped = match outcome {
            Outcome::ProcessAborted => true,
            _ => false,
        };
        proof {
            let places = builder@.places;
            let name = cases[i as int].name@;
            assert forall|j: int| 0 <= j < i implies (#[trigger] places[j]).0 != name by {
                assert(registry.names()[j] == cases[j].name@);
                assert(registry.names()[i as int] == name);
            }
            lemma_place_of(places, name, i as int);
        }
        let _ = builder.record(&cases[i].name, outcome);
        i += 1;
    }
    proof {
        lemma_collected_prefix(builder@.places, i as int);
    }
    let report = builder.finish();
    proof {
        assert forall|b: int| #[trigger]
            aborts_first_at(registry.cases(), b) implies report@.truncated && report@.entries.len()
            == b + 1 by {
            if report@.entries.len() > b {
                assert(is_outcome_of(registry.cases()[b], report@.entries[b].1));
            }
        }
    }
    report
}

} // verus!
