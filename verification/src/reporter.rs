//! The reporter: renders a finished report as text and derives the status
//! that the run hands to its caller.

use vstd::prelude::*;
use crate::outcome::{Outcome, OutcomeView};
use crate::report::{entries_of, tally, Counted, Entry, Report};
use crate::text::{decimal, decimal_text};

verus! {

/// How an outcome is written: its kind, and behind it the message of a
/// failed or abnormally terminated case, word for word.
pub open spec fn outcome_text(outcome: OutcomeView) -> Seq<char> {
    match outcome {
        OutcomeView::Passed => "passed"@,
        OutcomeView::Failed(message) => "failed: "@ + message,
        OutcomeView::AbnormallyTerminated(message) => "abnormally terminated: "@ + message,
        OutcomeView::ProcessAborted => "process aborted"@,
    }
}

/// The line of one entry: the name, a colon, the outcome, a line feed.
pub open spec fn line(entry: Entry) -> Seq<char> {
    entry.0 + ": "@ + outcome_text(entry.1) + "\n"@
}

/// The lines of `entries`, one behind the other.
pub open spec fn lines(entries: Seq<Entry>) -> Seq<char>
    decreases entries.len(),
{
    if entries.len() == 0 {
        Seq::<char>::empty()
    } else {
        lines(entries.drop_last()) + line(entries.last())
    }
}

/// What the closing line says of a run that was cut short.
pub open spec fn truncation_note(truncated: bool) -> Seq<char> {
    if truncated {
        ", run aborted"@
    } else {
        ""@
    }
}

/// The closing line: the three counts, and a note where the run was cut
/// short.
pub open spec fn summary(passed: nat, failed: nat, abnormally_terminated: nat, truncated: bool) -> Seq<
    char,
> {
    "passed: "@ + decimal(passed) + ", failed: "@ + decimal(failed) + ", abnormally terminated: "@
        + decimal(abnormally_terminated) + truncation_note(truncated) + "\n"@
}

/// The text of a report: one line for each entry, in the report's order, and
/// the closing line.
pub open spec fn rendered(entries: Seq<Entry>, truncated: bool) -> Seq<char> {
    lines(entries) + summary(
        tally(entries, Counted::Passed),
        tally(entries, Counted::Failed),
        tally(entries, Counted::AbnormallyTerminated),
        truncated,
    )
}

/// Whether every one of `entries` holds the outcome `Passed`.
pub open spec fn all_passed(entries: Seq<Entry>) -> bool {
    forall|i: int| 0 <= i < entries.len() ==> (#[trigger] entries[i]).1 == OutcomeView::Passed
}

/// The message that an outcome carries, or the empty text where it carries
/// none.
pub open spec fn message_of(outcome: OutcomeView) -> Seq<char> {
    match outcome {
        OutcomeView::Failed(message) => message,
        OutcomeView::AbnormallyTerminated(message) => message,
        _ => Seq::<char>::empty(),
    }
}

/// Whether `part` stands in `whole` as one unbroken stretch.
pub open spec fn occurs_in(part: Seq<char>, whole: Seq<char>) -> bool {
    exists|start: int, end: int|
        0 <= start && end == start + part.len() && end <= whole.len() && #[trigger] whole.subrange(
            start,
            end,
        ) == part
}

/// What stands between two other texts occurs in the whole.
pub proof fn lemma_occurs_between(before: Seq<char>, part: Seq<char>, after: Seq<char>)
    ensures
        occurs_in(part, before + part + after),
{
    let whole = before + part + after;
    let start = before.len() as int;
    let end = start + part.len();
    assert(whole.subrange(start, end) =~= part);
}

/// What occurs in a part of a text occurs in the text.
pub proof fn lemma_occurs_within(inner: Seq<char>, part: Seq<char>, whole: Seq<char>)
    requires
        occurs_in(inner, part),
        occurs_in(part, whole),
    ensures
        occurs_in(inner, whole),
{
    let (a, b) = choose|a: int, b: int|
        0 <= a && b == a + inner.len() && b <= part.len() && #[trigger] part.subrange(a, b)
            == inner;
    let (c, d) = choose|c: int, d: int|
        0 <= c && d == c + part.len() && d <= whole.len() && #[trigger] whole.subrange(c, d)
            == part;
    assert(whole.subrange(c + a, c + b) =~= whole.subrange(c, d).subrange(a, b));
}

/// The text of a report holds the line of each of its entries, and in it
/// the name of the case and the message of its outcome, word for word.
pub proof fn lemma_rendered_shows_each_entry(entries: Seq<Entry>, truncated: bool, i: int)
    requires
        0 <= i < entries.len(),
    ensures
        occurs_in(line(entries[i]), rendered(entries, truncated)),
        occurs_in(entries[i].0, rendered(entries, truncated)),
        occurs_in(message_of(entries[i].1), rendered(entries, truncated)),
    decreases entries.len(),
{
    let whole = rendered(entries, truncated);
    let closing = summary(
        tally(entries, Counted::Passed),
        tally(entries, Counted::Failed),
        tally(entries, Counted::AbnormallyTerminated),
        truncated,
    );
    let entry = entries[i];
    lemma_lines_show_each_entry(entries, i);
    lemma_occurs_between(Seq::<char>::empty(), lines(entries), closing);
    assert(Seq::<char>::empty() + lines(entries) + closing =~= whole);
    lemma_occurs_within(line(entry), lines(entries), whole);

    let tail = ": "@ + outcome_text(entry.1) + "\n"@;
    lemma_occurs_between(Seq::<char>::empty(), entry.0, tail);
    assert(Seq::<char>::empty() + entry.0 + tail =~= line(entry));
    lemma_occurs_within(entry.0, line(entry), whole);

    let message = message_of(entry.1);
    let head = match entry.1 {
        OutcomeView::Passed => entry.0 + ": "@ + "passed"@,
        OutcomeView::Failed(_) => entry.0 + ": "@ + "failed: "@,
        OutcomeView::AbnormallyTerminated(_) => entry.0 + ": "@ + "abnormally terminated: "@,
        OutcomeView::ProcessAborted => entry.0 + ": "@ + "process aborted"@,
    };
    lemma_occurs_between(head, message, "\n"@);
    assert(head + message + "\n"@ =~= line(entry));
    lemma_occurs_within(message, line(entry), whole);
}

/// The lines of a report hold the line of each of its entries.
pub proof fn lemma_lines_show_each_entry(entries: Seq<Entry>, i: int)
    requires
        0 <= i < entries.len(),
    ensures
        occurs_in(line(entries[i]), lines(entries)),
    decreases entries.len(),
{
    let front = entries.drop_last();
    if i == entries.len() - 1 {
        lemma_occurs_between(lines(front), line(entries[i]), Seq::<char>::empty());
        assert(lines(front) + line(entries[i]) + Seq::<char>::empty() =~= lines(entries));
    } else {
        lemma_lines_show_each_entry(front, i);
        lemma_occurs_between(Seq::<char>::empty(), lines(front), line(entries.last()));
        assert(Seq::<char>::empty() + lines(front) + line(entries.last()) =~= lines(entries));
        lemma_occurs_within(line(entries[i]), lines(front), lines(entries));
    }
}

fn outcome_line(name: &String, outcome: &Outcome) -> (text: String)
    ensures
        text@ == line((name@, outcome@)),
{
    let kind = match outcome {
        Outcome::Passed => String::from_str("passed"),
        Outcome::Failed { message } => String::from_str("failed: ").concat(message.as_str()),
        Outcome::AbnormallyTerminated { message } => String::from_str(
            "abnormally terminated: ",
        ).concat(message.as_str()),
        Outcome::ProcessAborted => String::from_str("process aborted"),
    };
    let mut text = name.clone();
    text.append(": ");
    text.append(kind.as_str());
    text.append("\n");
    text
}

fn summary_line(passed: usize, failed: usize, abnormally_terminated: usize, truncated: bool) -> (text:
    String)
    ensures
        text@ == summary(passed as nat, failed as nat, abnormally_terminated as nat, truncated),
{
    let mut text = String::from_str("passed: ");
    text.append(decimal_text(passed as u64).as_str());
    text.append(", failed: ");
    text.append(decimal_text(failed as u64).as_str());
    text.append(", abnormally terminated: ");
    text.append(decimal_text(abnormally_terminated as u64).as_str());
    if truncated {
        text.append(", run aborted");
    } else {
        text.append("");
    }
    text.append("\n");
    text
}

/// Renders `report`: one line for each case in the report's order, with its
/// name, the kind of its outcome and its message, then the closing line with
/// the counts.
pub fn render(report: &Report) -> (text: String)
    ensures
        text@ == rendered(report@.entries, report@.truncated),
{
    let entries = report.entries();
    let mut text = String::new();
    let mut i: usize = 0;
    while i < entries.len()
        invariant
            i <= entries.len(),
            text@ == lines(entries_of(entries@).take(i as int)),
        decreases entries.len() - i,
    {
        proof {
            let next = entries_of(entries@).take(i + 1);
            assert(next.drop_last() =~= entries_of(entries@).take(i as int));
        }
        let one = outcome_line(&entries[i].0, &entries[i].1);
        text.append(one.as_str());
        i += 1;
    }
    assert(entries_of(entries@).take(i as int) =~= entries_of(entries@));
    let last = summary_line(
        report.passed(),
        report.failed(),
        report.abnormally_terminated(),
        report.truncated(),
    );
    text.append(last.as_str());
    text
}

/// The status of the run: `0` where every recorded outcome is `Passed` and
/// no fatal abort cut the run short, `1` otherwise.
pub fn exit_status(report: &Report) -> (status: u8)
    ensures
        status == 0 <==> (all_passed(report@.entries) && !report@.truncated),
        status == 0 || status == 1,
{
    if report.truncated() {
        return 1;
    }
    let entries = report.entries();
    let mut i: usize = 0;
    while i < entries.len()
        invariant
            i <= entries.len(),
            entries_of(entries@) == report@.entries,
            forall|j: int| 0 <= j < i ==> (#[trigger] report@.entries[j]).1 == OutcomeView::Passed,
        decreases entries.len() - i,
    {
        if !entries[i].1.is_passed() {
            assert(report@.entries[i as int].1 == entries[i as int].1@);
            return 1;
        }
        i += 1;
    }
    0
}

} // verus!
