//! The states of runs, jobs and steps, and the symbols and colours that show them.

use crate::text::same_text;
use vstd::prelude::*;

verus! {

/// How far a job or a step has come. `Other` is a state that has no symbol of its own.
#[derive(Clone, Copy, Debug, PartialEq, Eq, Structural)]
pub enum Status {
    Pending,
    Queued,
    InProgress,
    Completed,
    Failed,
    Other,
}

/// How a job or a step has ended. `Other` is an end that has no symbol of its own.
#[derive(Clone, Copy, Debug, PartialEq, Eq, Structural)]
pub enum Conclusion {
    ActionRequired,
    Cancelled,
    Failure,
    Neutral,
    Skipped,
    Success,
    TimedOut,
    Other,
}

/// The colours that text is shown in.
#[derive(Clone, Copy, Debug, PartialEq, Eq, Structural)]
pub enum Color {
    Yellow,
    Blue,
    Green,
    Red,
    Gray,
    DarkGray,
    Magenta,
    White,
}

/// A symbol and its colour.
#[derive(Clone, Copy, Debug, PartialEq, Eq)]
pub struct StatusDisplay {
    pub symbol: &'static str,
    pub color: Color,
}

impl From<(&'static str, Color)> for StatusDisplay {
    fn from(tuple: (&'static str, Color)) -> (r: Self) {
        StatusDisplay { symbol: tuple.0, color: tuple.1 }
    }
}

impl vstd::std_specs::convert::FromSpecImpl<(&'static str, Color)> for StatusDisplay {
    open spec fn obeys_from_spec() -> bool {
        true
    }

    open spec fn from_spec(tuple: (&'static str, Color)) -> Self {
        StatusDisplay { symbol: tuple.0, color: tuple.1 }
    }
}

impl View for StatusDisplay {
    type V = (Seq<char>, Color);

    open spec fn view(&self) -> (Seq<char>, Color) {
        (self.symbol@, self.color)
    }
}

/// The symbol and colour of a run, by the words in which its state and its end are given.
pub open spec fn run_status_symbol(status: Seq<char>, conclusion: Option<Seq<char>>) -> (
    Seq<char>,
    Color,
) {
    if status == "in_progress"@ {
        ("⏵"@, Color::Yellow)
    } else if status == "queued"@ || status == "pending"@ {
        ("⏸"@, Color::Blue)
    } else if status == "completed"@ {
        if conclusion == Some("success"@) {
            ("✔"@, Color::Green)
        } else if conclusion == Some("failure"@) || conclusion == Some("timed_out"@) {
            ("⚠"@, Color::Red)
        } else if conclusion == Some("cancelled"@) {
            ("∅"@, Color::Gray)
        } else if conclusion == Some("skipped"@) {
            ("⏭"@, Color::Magenta)
        } else {
            ("⏺"@, Color::Green)
        }
    } else if status == "failed"@ {
        ("⚠"@, Color::Red)
    } else {
        ("?"@, Color::Magenta)
    }
}

/// The text in an optional string.
pub open spec fn optional_text(s: Option<String>) -> Option<Seq<char>> {
    match s {
        Some(s) => Some(s@),
        None => None,
    }
}

/// Picks the symbol and the colour that show the state of a run.
pub fn get_run_status_symbol(status: &str, conclusion: &Option<String>) -> (r: StatusDisplay)
    ensures
        r@ == run_status_symbol(status@, optional_text(*conclusion)),
{
    let pair: (&'static str, Color) = if same_text(status, "in_progress") {
        ("⏵", Color::Yellow)
    } else if same_text(status, "queued") {
        ("⏸", Color::Blue)
    } else if same_text(status, "pending") {
        ("⏸", Color::Blue)
    } else if same_text(status, "completed") {
        match conclusion {
            Some(conclusion) => {
                let conclusion: &str = conclusion.as_str();
                if same_text(conclusion, "success") {
                    ("✔", Color::Green)
                } else if same_text(conclusion, "failure") {
                    ("⚠", Color::Red)
                } else if same_text(conclusion, "timed_out") {
                    ("⚠", Color::Red)
                } else if same_text(conclusion, "cancelled") {
                    ("∅", Color::Gray)
                } else if same_text(conclusion, "skipped") {
                    ("⏭", Color::Magenta)
                } else {
                    ("⏺", Color::Green)
                }
            },
            None => ("⏺", Color::Green),
        }
    } else if same_text(status, "failed") {
        ("⚠", Color::Red)
    } else {
        ("?", Color::Magenta)
    };
    StatusDisplay::from(pair)
}

/// The symbol and colour of a job or a step.
pub open spec fn job_status_symbol(status: Status, conclusion: Option<Conclusion>) -> (
    Seq<char>,
    Color,
) {
    match status {
        Status::InProgress => ("⏵"@, Color::Yellow),
        Status::Queued | Status::Pending => ("⏸"@, Color::Blue),
        Status::Completed => match conclusion {
            Some(Conclusion::Success) => ("✔"@, Color::Green),
            Some(Conclusion::Failure) | Some(Conclusion::TimedOut) => ("⚠"@, Color::Red),
            Some(Conclusion::Cancelled) => ("∅"@, Color::Gray),
            Some(Conclusion::Skipped) => ("⏭"@, Color::Magenta),
            _ => ("⏺"@, Color::Green),
        },
        Status::Failed => ("⚠"@, Color::Red),
        Status::Other => ("?"@, Color::Magenta),
    }
}

/// Picks the symbol and the colour that show the state of a job or a step.
pub fn get_job_status_symbol(status: &Status, conclusion: &Option<Conclusion>) -> (r: StatusDisplay)
    ensures
        r@ == job_status_symbol(*status, *conclusion),
{
    let pair: (&'static str, Color) = match status {
        Status::InProgress => ("⏵", Color::Yellow),
        Status::Queued => ("⏸", Color::Blue),
        Status::Pending => ("⏸", Color::Blue),
        Status::Completed => match conclusion {
            Some(Conclusion::Success) => ("✔", Color::Green),
            Some(Conclusion::Failure) => ("⚠", Color::Red),
            Some(Conclusion::TimedOut) => ("⚠", Color::Red),
            Some(Conclusion::Cancelled) => ("∅", Color::Gray),
            Some(Conclusion::Skipped) => ("⏭", Color::Magenta),
            _ => ("⏺", Color::Green),
        },
        Status::Failed => ("⚠", Color::Red),
        Status::Other => ("?", Color::Magenta),
    };
    StatusDisplay::from(pair)
}

/// The word for a state, where it has one.
pub open spec fn status_word(status: Status) -> Option<Seq<char>> {
    match status {
        Status::Pending => Some("pending"@),
        Status::Queued => Some("queued"@),
        Status::InProgress => Some("in_progress"@),
        Status::Completed => Some("completed"@),
        Status::Failed => Some("failed"@),
        Status::Other => None,
    }
}

/// The word for an end, where it has one.
pub open spec fn conclusion_word(conclusion: Conclusion) -> Option<Seq<char>> {
    match conclusion {
        Conclusion::ActionRequired => Some("action_required"@),
        Conclusion::Cancelled => Some("cancelled"@),
        Conclusion::Failure => Some("failure"@),
        Conclusion::Neutral => Some("neutral"@),
        Conclusion::Skipped => Some("skipped"@),
        Conclusion::Success => Some("success"@),
        Conclusion::TimedOut => Some("timed_out"@),
        Conclusion::Other => None,
    }
}

/// A run and a job whose states and ends go by the same words show the same symbol.
pub proof fn runs_and_jobs_look_alike(status: Status, conclusion: Option<Conclusion>)
    requires
        status_word(status) is Some,
        conclusion matches Some(c) ==> conclusion_word(c) is Some,
    ensures
        run_status_symbol(
            status_word(status)->0,
            match conclusion {
                Some(c) => conclusion_word(c),
                None => None,
            },
        ) == job_status_symbol(status, conclusion),
{
    reveal_strlit("pending");
    reveal_strlit("queued");
    reveal_strlit("in_progress");
    reveal_strlit("completed");
    reveal_strlit("failed");
    reveal_strlit("action_required");
    reveal_strlit("cancelled");
    reveal_strlit("failure");
    reveal_strlit("neutral");
    reveal_strlit("skipped");
    reveal_strlit("success");
    reveal_strlit("timed_out");
    // The words differ in their lengths or in their first letters.
    assert("pending"@[0] == 'p' && "queued"@[0] == 'q' && "in_progress"@[0] == 'i');
    assert("completed"@[0] == 'c' && "failed"@[0] == 'f' && "failed"@.len() == 6);
    assert("action_required"@[0] == 'a' && "cancelled"@[0] == 'c' && "failure"@[0] == 'f');
    assert("neutral"@[0] == 'n' && "skipped"@[0] == 's' && "skipped"@[1] == 'k');
    assert("success"@[0] == 's' && "success"@[1] == 'u' && "timed_out"@[0] == 't');
}

/// The symbol of a job or a step that is completed tells how it has ended: a red warning sign exactly
/// for a failure or a time-out, a green tick exactly for a success, and so on.
pub proof fn symbols_tell_the_end(conclusion: Option<Conclusion>)
    ensures
        ({
            let shown = job_status_symbol(Status::Completed, conclusion);
            &&& shown == ("⚠"@, Color::Red) <==> (conclusion == Some(Conclusion::Failure)
                || conclusion == Some(Conclusion::TimedOut))
            &&& shown == ("✔"@, Color::Green) <==> conclusion == Some(Conclusion::Success)
            &&& shown == ("∅"@, Color::Gray) <==> conclusion == Some(Conclusion::Cancelled)
            &&& shown == ("⏭"@, Color::Magenta) <==> conclusion == Some(Conclusion::Skipped)
            &&& shown == ("⏺"@, Color::Green) <==> (conclusion is None || conclusion == Some(
                Conclusion::Neutral,
            ) || conclusion == Some(Conclusion::ActionRequired) || conclusion == Some(
                Conclusion::Other,
            ))
        }),
{
    lemma_symbols_differ();
}

/// The symbol of a job or a step that is not completed tells how far it has come, however it may have
/// ended.
pub proof fn symbols_tell_the_state(status: Status, conclusion: Option<Conclusion>)
    requires
        status != Status::Completed,
    ensures
        ({
            let shown = job_status_symbol(status, conclusion);
            &&& shown == ("⏵"@, Color::Yellow) <==> status == Status::InProgress
            &&& shown == ("⏸"@, Color::Blue) <==> (status == Status::Queued || status
                == Status::Pending)
            &&& shown == ("⚠"@, Color::Red) <==> status == Status::Failed
            &&& shown == ("?"@, Color::Magenta) <==> status == Status::Other
        }),
{
    lemma_symbols_differ();
}

proof fn lemma_symbols_differ()
    ensures
        "⚠"@[0] != "✔"@[0],
        "✔"@ != "⏺"@,
        "⏭"@ != "?"@,
{
    reveal_strlit("⚠");
    reveal_strlit("✔");
    reveal_strlit("⏺");
    reveal_strlit("⏭");
    reveal_strlit("?");
    assert("✔"@[0] == '✔' && "⏺"@[0] == '⏺');
    assert("⏭"@[0] == '⏭' && "?"@[0] == '?');
}

/// The symbol of a run follows from its words, and every other word has a symbol that says so: a
/// question mark where its state is none of those that are known, and a dot where only its end is.
pub proof fn unknown_words_have_symbols(status: Seq<char>, conclusion: Option<Seq<char>>)
    ensures
        status != "in_progress"@ && status != "queued"@ && status != "pending"@ && status
            != "completed"@ && status != "failed"@ ==> run_status_symbol(status, conclusion) == (
            "?"@,
            Color::Magenta,
        ),
        conclusion != Some("success"@) && conclusion != Some("failure"@) && conclusion != Some(
            "timed_out"@,
        ) && conclusion != Some("cancelled"@) && conclusion != Some("skipped"@)
            ==> run_status_symbol("completed"@, conclusion) == ("⏺"@, Color::Green),
        run_status_symbol("in_progress"@, conclusion) == ("⏵"@, Color::Yellow),
        run_status_symbol("queued"@, conclusion) == ("⏸"@, Color::Blue),
        run_status_symbol("pending"@, conclusion) == ("⏸"@, Color::Blue),
        run_status_symbol("failed"@, conclusion) == ("⚠"@, Color::Red),
{
    reveal_strlit("in_progress");
    reveal_strlit("queued");
    reveal_strlit("pending");
    reveal_strlit("completed");
    reveal_strlit("failed");
    assert("pending"@[0] == 'p' && "queued"@[0] == 'q' && "in_progress"@[0] == 'i');
    assert("completed"@[0] == 'c' && "failed"@[0] == 'f');
}

} // verus!
