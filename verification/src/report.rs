//! The outcome aggregator: collects one outcome per test case, in whatever
//! order the cases finish, and hands out a report in registration order.

use vstd::prelude::*;
use crate::outcome::{Outcome, OutcomeView};

verus! {

/// One line of a report: a case's name and its outcome.
pub type Entry = (Seq<char>, OutcomeView);

/// One place of a builder: a case's name and its outcome, once recorded.
pub type Place = (Seq<char>, Option<OutcomeView>);

/// The kinds of outcome that a report counts.
pub enum Counted {
    Passed,
    Failed,
    AbnormallyTerminated,
}

/// Whether `outcome` is of the kind `kind`.
pub open spec fn is_counted(outcome: OutcomeView, kind: Counted) -> bool {
    match kind {
        Counted::Passed => outcome is Passed,
        Counted::Failed => outcome is Failed,
        Counted::AbnormallyTerminated => outcome is AbnormallyTerminated,
    }
}

/// How many of `entries` hold an outcome of the kind `kind`.
pub open spec fn tally(entries: Seq<Entry>, kind: Counted) -> nat
    decreases entries.len(),
{
    if entries.len() == 0 {
        0
    } else {
        tally(entries.drop_last(), kind) + if is_counted(entries.last().1, kind) {
            1nat
        } else {
            0nat
        }
    }
}

/// Whether none of `entries` holds a fatal abort.
pub open spec fn none_aborted(entries: Seq<Entry>) -> bool {
    forall|i: int| 0 <= i < entries.len() ==> !((#[trigger] entries[i]).1 is ProcessAborted)
}

/// The three counts never exceed the number of entries, and add up to it
/// where no entry holds a fatal abort: each such case is counted once.
pub proof fn lemma_counts_cover_entries(entries: Seq<Entry>)
    ensures
        tally(entries, Counted::Passed) + tally(entries, Counted::Failed) + tally(
            entries,
            Counted::AbnormallyTerminated,
        ) <= entries.len(),
        none_aborted(entries) ==> tally(entries, Counted::Passed) + tally(entries, Counted::Failed)
            + tally(entries, Counted::AbnormallyTerminated) == entries.len(),
    decreases entries.len(),
{
    if entries.len() > 0 {
        let front = entries.drop_last();
        lemma_counts_cover_entries(front);
        if none_aborted(entries) {
            assert forall|i: int| 0 <= i < front.len() implies !((#[trigger] front[i]).1
                is ProcessAborted) by {
                assert(front[i] == entries[i]);
            }
        }
    }
}

/// The entries of the report that `places` give: the places that hold an
/// outcome, in the order of the places.
pub open spec fn collected(places: Seq<Place>) -> Seq<Entry>
    decreases places.len(),
{
    if places.len() == 0 {
        Seq::<Entry>::empty()
    } else {
        match places.last().1 {
            Some(outcome) => collected(places.drop_last()).push((places.last().0, outcome)),
            None => collected(places.drop_last()),
        }
    }
}

/// Whether `i` is the first place of `places` that bears `name`.
pub open spec fn is_place_of(places: Seq<Place>, name: Seq<char>, i: int) -> bool {
    &&& 0 <= i < places.len()
    &&& places[i].0 == name
    &&& forall|j: int| 0 <= j < i ==> (#[trigger] places[j]).0 != name
}

/// Whether some place of `places` bears `name`.
pub open spec fn has_place(places: Seq<Place>, name: Seq<char>) -> bool {
    exists|i: int| 0 <= i < places.len() && (#[trigger] places[i]).0 == name
}

/// The first place of `places` that bears `name`.
pub open spec fn place_of(places: Seq<Place>, name: Seq<char>) -> int {
    choose|i: int| is_place_of(places, name, i)
}

/// Why an outcome was not recorded.
#[derive(Debug, Clone, Copy, PartialEq, Eq)]
pub enum RecordError {
    /// A fatal abort has ended the run: nothing more is recorded.
    RunAborted,
    /// No case of this name was registered.
    UnknownCase,
    /// The case already has its outcome.
    AlreadyRecorded,
}

/// The state of a builder: its places in registration order, and whether a
/// fatal abort has ended the run.
pub struct BuilderView {
    pub places: Seq<Place>,
    pub aborted: bool,
}

/// What recording `outcome` for the case `name` does to a builder.
pub open spec fn recorded(builder: BuilderView, name: Seq<char>, outcome: OutcomeView) -> Result<
    BuilderView,
    RecordError,
> {
    if builder.aborted {
        Err(RecordError::RunAborted)
    } else if !has_place(builder.places, name) {
        Err(RecordError::UnknownCase)
    } else if builder.places[place_of(builder.places, name)].1 is Some {
        Err(RecordError::AlreadyRecorded)
    } else {
        Ok(
            BuilderView {
                places: builder.places.update(
                    place_of(builder.places, name),
                    (name, Some(outcome)),
                ),
                aborted: outcome is ProcessAborted,
            },
        )
    }
}

/// The first place that bears a name is determined by it.
pub proof fn lemma_place_of(places: Seq<Place>, name: Seq<char>, i: int)
    requires
        is_place_of(places, name, i),
    ensures
        has_place(places, name),
        place_of(places, name) == i,
{
}

/// A name that some place bears has a first place.
pub proof fn lemma_first_place(places: Seq<Place>, name: Seq<char>, bound: int)
    requires
        0 <= bound < places.len(),
        places[bound].0 == name,
    ensures
        is_place_of(places, name, place_of(places, name)),
        place_of(places, name) <= bound,
    decreases bound,
{
    if exists|j: int| 0 <= j < bound && (#[trigger] places[j]).0 == name {
        let j = choose|j: int| 0 <= j < bound && (#[trigger] places[j]).0 == name;
        lemma_first_place(places, name, j);
    } else {
        lemma_place_of(places, name, bound);
    }
}

/// Recording an outcome leaves every name at its place.
pub proof fn lemma_recorded_keeps_places(
    builder: BuilderView,
    name: Seq<char>,
    outcome: OutcomeView,
    other: Seq<char>,
)
    requires
        recorded(builder, name, outcome) is Ok,
    ensures
        recorded(builder, name, outcome)->Ok_0.places.len() == builder.places.len(),
        has_place(recorded(builder, name, outcome)->Ok_0.places, other) == has_place(
            builder.places,
            other,
        ),
        has_place(builder.places, other) ==> place_of(
            recorded(builder, name, outcome)->Ok_0.places,
            other,
        ) == place_of(builder.places, other),
        other != name && has_place(builder.places, other) ==> place_of(builder.places, other)
            != place_of(builder.places, name),
        is_place_of(builder.places, name, place_of(builder.places, name)),
        has_place(builder.places, other) ==> is_place_of(
            builder.places,
            other,
            place_of(builder.places, other),
        ),
{
    let before = builder.places;
    let after = recorded(builder, name, outcome)->Ok_0.places;
    let at = choose|i: int| 0 <= i < before.len() && (#[trigger] before[i]).0 == name;
    lemma_first_place(before, name, at);
    assert forall|j: int| 0 <= j < before.len() implies (#[trigger] after[j]).0 == before[j].0 by {}
    if has_place(before, other) {
        let i = choose|i: int| 0 <= i < before.len() && (#[trigger] before[i]).0 == other;
        lemma_first_place(before, other, i);
        lemma_place_of(after, other, place_of(before, other));
    }
}

/// Where the first `k` places hold an outcome and the others hold none, the
/// report lists exactly those `k`, in the order of the places.
pub proof fn lemma_collected_prefix(places: Seq<Place>, k: int)
    requires
        0 <= k <= places.len(),
        forall|j: int| 0 <= j < k ==> (#[trigger] places[j]).1 is Some,
        forall|j: int| k <= j < places.len() ==> (#[trigger] places[j]).1 is None,
    ensures
        collected(places).len() == k,
        forall|j: int|
            0 <= j < k ==> #[trigger] collected(places)[j] == (places[j].0, places[j].1->Some_0),
    decreases places.len(),
{
    if places.len() > 0 {
        let front = places.drop_last();
        if k == places.len() {
            lemma_collected_prefix(front, k - 1);
        } else {
            lemma_collected_prefix(front, k);
        }
    }
}

/// What recording first `first` and then `second` does to a builder.
pub open spec fn recorded_both(
    builder: BuilderView,
    first: (Seq<char>, OutcomeView),
    second: (Seq<char>, OutcomeView),
) -> Result<BuilderView, RecordError> {
    match recorded(builder, first.0, first.1) {
        Ok(after) => recorded(after, second.0, second.1),
        Err(error) => Err(error),
    }
}

/// The order in which two cases finish does not show in the builder: where
/// neither outcome is a fatal abort, recording the two in one order succeeds
/// exactly if it does in the other, and leaves the same state.
pub proof fn lemma_record_order_is_irrelevant(
    builder: BuilderView,
    a: (Seq<char>, OutcomeView),
    b: (Seq<char>, OutcomeView),
)
    requires
        a.0 != b.0,
        !(a.1 is ProcessAborted),
        !(b.1 is ProcessAborted),
    ensures
        recorded_both(builder, a, b) is Ok <==> recorded_both(builder, b, a) is Ok,
        recorded_both(builder, a, b) is Ok ==> recorded_both(builder, a, b) == recorded_both(
            builder,
            b,
            a,
        ),
{
    if recorded(builder, a.0, a.1) is Ok {
        lemma_recorded_keeps_places(builder, a.0, a.1, b.0);
    }
    if recorded(builder, b.0, b.1) is Ok {
        lemma_recorded_keeps_places(builder, b.0, b.1, a.0);
    }
    if recorded_both(builder, a, b) is Ok {
        let one = recorded_both(builder, a, b)->Ok_0;
        let other = recorded_both(builder, b, a)->Ok_0;
        assert(one.places =~= other.places);
    }
}

struct Slot {
    name: String,
    outcome: Option<Outcome>,
}

impl Slot {
    spec fn place(self) -> Place {
        (
            self.name@,
            match self.outcome {
                Some(o) => Some(o@),
                None => None,
            },
        )
    }
}

/// Collects the outcomes of one run.
pub struct ReportBuilder {
    slots: Vec<Slot>,
    aborted: bool,
}

/// The finished result of one run: the recorded outcomes in registration
/// order, the counts of each kind, and whether a fatal abort cut the run
/// short.
pub struct Report {
    entries: Vec<(String, Outcome)>,
    passed: usize,
    failed: usize,
    abnormally_terminated: usize,
    truncated: bool,
}

/// The mathematical value of a [`Report`].
pub struct ReportView {
    pub entries: Seq<Entry>,
    pub truncated: bool,
}

/// The entries that a vector of names and outcomes stands for.
pub open spec fn entries_of(pairs: Seq<(String, Outcome)>) -> Seq<Entry> {
    pairs.map_values(|p: (String, Outcome)| (p.0@, p.1@))
}

/// The places that name the cases `names`, none of them with an outcome yet.
pub open spec fn empty_places(names: Seq<Seq<char>>) -> Seq<Place> {
    names.map_values(|n: Seq<char>| (n, None::<OutcomeView>))
}

impl View for ReportBuilder {
    type V = BuilderView;

    closed spec fn view(&self) -> BuilderView {
        BuilderView { places: self.slots@.map_values(|s: Slot| s.place()), aborted: self.aborted }
    }
}

impl View for Report {
    type V = ReportView;

    closed spec fn view(&self) -> ReportView {
        ReportView { entries: entries_of(self.entries@), truncated: self.truncated }
    }
}

impl ReportBuilder {
    /// Starts a run over the cases `names`, given in registration order.
    pub fn begin(names: Vec<String>) -> (builder: ReportBuilder)
        ensures
            builder@.places == empty_places(names@.map_values(|n: String| n@)),
            !builder@.aborted,
    {
        let mut slots: Vec<Slot> = Vec::new();
        let mut i: usize = 0;
        while i < names.len()
            invariant
                i <= names.len(),
                slots.len() == i,
                forall|j: int|
                    0 <= j < i ==> (#[trigger] slots[j]).place() == (names[j]@, None::<OutcomeView>),
            decreases names.len() - i,
        {
            slots.push(Slot { name: names[i].clone(), outcome: None });
            i += 1;
        }
        ReportBuilder { slots, aborted: false }
    }

    /// Records `outcome` for the case `name`. The cases may be recorded in
    /// any order; each at most once, and none after a fatal abort.
    pub fn record(&mut self, name: &String, outcome: Outcome) -> (result: Result<(), RecordError>)
        ensures
            match recorded(old(self)@, name@, outcome@) {
                Ok(after) => result is Ok && final(self)@ == after,
                Err(error) => result == Err::<(), RecordError>(error) && final(self)@ == old(self)@,
            },
    {
        if self.aborted {
            return Err(RecordError::RunAborted);
        }
        let mut i: usize = 0;
        while i < self.slots.len()
            invariant
                i <= self.slots.len(),
                *self == *old(self),
                !self.aborted,
                forall|j: int| 0 <= j < i ==> (#[trigger] self@.places[j]).0 != name@,
            decreases self.slots.len() - i,
        {
            if self.slots[i].name == *name {
                let ghost before = self@.places;
                proof {
                    lemma_place_of(before, name@, i as int);
                }
                if self.slots[i].outcome.is_some() {
                    return Err(RecordError::AlreadyRecorded);
                }
                let aborted = match outcome {
                    Outcome::ProcessAborted => true,
                    _ => false,
                };
                self.slots[i].outcome = Some(outcome);
                self.aborted = aborted;
                assert(self@.places =~= before.update(i as int, (name@, Some(outcome@))));
                return Ok(());
            }
            i += 1;
        }
        Err(RecordError::UnknownCase)
    }

    /// Ends the run: the report holds the recorded outcomes in registration
    /// order, whatever the order in which they were recorded, and the count
    /// of each kind.
    pub fn finish(self) -> (report: Report)
        ensures
            report@.entries == collected(self@.places),
            report@.truncated == self@.aborted,
    {
        let mut entries: Vec<(String, Outcome)> = Vec::new();
        let mut passed: usize = 0;
        let mut failed: usize = 0;
        let mut abnormally_terminated: usize = 0;
        let mut i: usize = 0;
        while i < self.slots.len()
            invariant
                i <= self.slots.len(),
                entries.len() <= i,
                entries_of(entries@) == collected(self@.places.take(i as int)),
                passed == tally(entries_of(entries@), Counted::Passed),
                failed == tally(entries_of(entries@), Counted::Failed),
                abnormally_terminated == tally(entries_of(entries@), Counted::AbnormallyTerminated),
                passed <= entries.len(),
                failed <= entries.len(),
                abnormally_terminated <= entries.len(),
            decreases self.slots.len() - i,
        {
            let ghost before = entries_of(entries@);
            proof {
                let next = self@.places.take(i + 1);
                assert(next.drop_last() =~= self@.places.take(i as int));
            }
            match &self.slots[i].outcome {
                Some(outcome) => {
                    match outcome {
                        Outcome::Passed => {
                            passed += 1;
                        },
                        Outcome::Failed { .. } => {
                            failed += 1;
                        },
                        Outcome::AbnormallyTerminated { .. } => {
                            abnormally_terminated += 1;
                        },
                        Outcome::ProcessAborted => {},
                    }
                    entries.push((self.slots[i].name.clone(), outcome.clone()));
                    proof {
                        let now = entries_of(entries@);
                        assert(now.drop_last() =~= before);
                    }
                },
                None => {},
            }
            i += 1;
        }
        assert(self@.places.take(i as int) =~= self@.places);
        Report { entries, passed, failed, abnormally_terminated, truncated: self.aborted }
    }
}

impl Report {
    #[verifier::type_invariant]
    spec fn counts_agree(self) -> bool {
        &&& self.passed == tally(entries_of(self.entries@), Counted::Passed)
        &&& self.failed == tally(entries_of(self.entries@), Counted::Failed)
        &&& self.abnormally_terminated == tally(
            entries_of(self.entries@),
            Counted::AbnormallyTerminated,
        )
    }

    /// The recorded names and outcomes, in registration order.
    pub fn entries(&self) -> (entries: &Vec<(String, Outcome)>)
        ensures
            entries_of(entries@) == self@.entries,
    {
        &self.entries
    }

    /// How many cases passed.
    pub fn passed(&self) -> (n: usize)
        ensures
            n == tally(self@.entries, Counted::Passed),
    {
        proof {
            use_type_invariant(self);
        }
        self.passed
    }

    /// How many cases failed.
    pub fn failed(&self) -> (n: usize)
        ensures
            n == tally(self@.entries, Counted::Failed),
    {
        proof {
            use_type_invariant(self);
        }
        self.failed
    }

    /// How many cases terminated abnormally without being expected to.
    pub fn abnormally_terminated(&self) -> (n: usize)
        ensures
            n == tally(self@.entries, Counted::AbnormallyTerminated),
    {
        proof {
            use_type_invariant(self);
        }
        self.abnormally_terminated
    }

    /// Whether a fatal abort cut the run short.
    pub fn truncated(&self) -> (b: bool)
        ensures
            b == self@.truncated,
    {
        self.truncated
    }
}

} // verus!
