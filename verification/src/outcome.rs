//! How a procedure can end, and how the harness classifies it.

use vstd::prelude::*;

verus! {

/// A controlled abnormal termination: a failure signal that a fault boundary
/// can intercept. It may carry a message.
#[derive(Debug)]
pub struct Signal {
    pub message: Option<String>,
}

/// What a fault boundary observed of one run of a procedure.
#[derive(Debug)]
pub enum Termination {
    /// The procedure returned normally.
    Returned,
    /// The procedure, or an assertion inside it, raised a failure signal.
    Raised(Signal),
    /// The procedure brought the whole process down.
    Aborted,
}

/// The classified result of running one test case.
#[derive(Debug, PartialEq, Eq)]
pub enum Outcome {
    Passed,
    Failed { message: String },
    AbnormallyTerminated { message: String },
    ProcessAborted,
}

/// The mathematical value of a [`Termination`]: the message, where there is
/// one, as a sequence of characters.
pub enum TerminationView {
    Returned,
    Raised(Option<Seq<char>>),
    Aborted,
}

/// The mathematical value of an [`Outcome`].
pub enum OutcomeView {
    Passed,
    Failed(Seq<char>),
    AbnormallyTerminated(Seq<char>),
    ProcessAborted,
}

impl View for Signal {
    type V = Option<Seq<char>>;

    open spec fn view(&self) -> Option<Seq<char>> {
        match self.message {
            Some(m) => Some(m@),
            None => None,
        }
    }
}

impl View for Termination {
    type V = TerminationView;

    open spec fn view(&self) -> TerminationView {
        match self {
            Termination::Returned => TerminationView::Returned,
            Termination::Raised(signal) => TerminationView::Raised(signal@),
            Termination::Aborted => TerminationView::Aborted,
        }
    }
}

impl View for Outcome {
    type V = OutcomeView;

    open spec fn view(&self) -> OutcomeView {
        match self {
            Outcome::Passed => OutcomeView::Passed,
            Outcome::Failed { message } => OutcomeView::Failed(message@),
            Outcome::AbnormallyTerminated { message } => OutcomeView::AbnormallyTerminated(
                message@,
            ),
            Outcome::ProcessAborted => OutcomeView::ProcessAborted,
        }
    }
}

impl Termination {
    /// The termination that a procedure's result stands for: `Ok` is a normal
    /// return, `Err` a raised signal.
    pub fn from_result(result: Result<(), Signal>) -> (t: Termination)
        ensures
            t@ == match result {
                Ok(_) => TerminationView::Returned,
                Err(signal) => TerminationView::Raised(signal@),
            },
    {
        match result {
            Ok(_) => Termination::Returned,
            Err(signal) => Termination::Raised(signal),
        }
    }
}

impl Clone for Outcome {
    fn clone(&self) -> (copy: Outcome)
        ensures
            copy@ == self@,
    {
        match self {
            Outcome::Passed => Outcome::Passed,
            Outcome::Failed { message } => Outcome::Failed { message: message.clone() },
            Outcome::AbnormallyTerminated { message } => Outcome::AbnormallyTerminated {
                message: message.clone(),
            },
            Outcome::ProcessAborted => Outcome::ProcessAborted,
        }
    }
}

impl Outcome {
    /// Whether this outcome is `Passed`.
    pub fn is_passed(&self) -> (b: bool)
        ensures
            b == (self@ == OutcomeView::Passed),
    {
        match self {
            Outcome::Passed => true,
            _ => false,
        }
    }
}

/// The message of a `Failed` outcome for a case that was expected to
/// terminate abnormally and did not.
pub open spec fn missing_termination_message() -> Seq<char> {
    "expected abnormal termination but procedure completed normally"@
}

/// The message that stands in for a signal that carried none.
pub open spec fn no_message() -> Seq<char> {
    "no message"@
}

/// The outcome of a case, given whether abnormal termination was expected of
/// it and how its procedure ended.
pub open spec fn classified(expect_abnormal: bool, termination: TerminationView) -> OutcomeView {
    match termination {
        TerminationView::Returned => if expect_abnormal {
            OutcomeView::Failed(missing_termination_message())
        } else {
            OutcomeView::Passed
        },
        TerminationView::Raised(message) => if expect_abnormal {
            OutcomeView::Passed
        } else {
            match message {
                Some(m) => OutcomeView::AbnormallyTerminated(m),
                None => OutcomeView::AbnormallyTerminated(no_message()),
            }
        },
        TerminationView::Aborted => OutcomeView::ProcessAborted,
    }
}

/// Classifies one observed termination.
pub fn classify(expect_abnormal: bool, termination: Termination) -> (outcome: Outcome)
    ensures
        outcome@ == classified(expect_abnormal, termination@),
{
    match termination {
        Termination::Returned => {
            if expect_abnormal {
                Outcome::Failed {
                    message: String::from_str(
                        "expected abnormal termination but procedure completed normally",
                    ),
                }
            } else {
                Outcome::Passed
            }
        },
        Termination::Raised(signal) => {
            if expect_abnormal {
                Outcome::Passed
            } else {
                match signal.message {
                    Some(message) => Outcome::AbnormallyTerminated { message },
                    None => Outcome::AbnormallyTerminated {
                        message: String::from_str("no message"),
                    },
                }
            }
        },
        Termination::Aborted => Outcome::ProcessAborted,
    }
}

} // verus!
