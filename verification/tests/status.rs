use gal::status::{
    get_job_status_symbol, get_run_status_symbol, Color, Conclusion, Status, StatusDisplay,
};

fn run(status: &str, conclusion: Option<&str>) -> (&'static str, Color) {
    let shown = get_run_status_symbol(status, &conclusion.map(|c| c.to_string()));
    (shown.symbol, shown.color)
}

fn job(status: Status, conclusion: Option<Conclusion>) -> (&'static str, Color) {
    let shown = get_job_status_symbol(&status, &conclusion);
    (shown.symbol, shown.color)
}

#[test]
fn runs_have_symbols() {
    assert_eq!(run("in_progress", None), ("⏵", Color::Yellow));
    assert_eq!(run("queued", None), ("⏸", Color::Blue));
    assert_eq!(run("pending", Some("success")), ("⏸", Color::Blue));
    assert_eq!(run("failed", None), ("⚠", Color::Red));
    assert_eq!(run("waiting", None), ("?", Color::Magenta));
    assert_eq!(run("", None), ("?", Color::Magenta));
    assert_eq!(run("Completed", Some("success")), ("?", Color::Magenta));
}

#[test]
fn completed_runs_have_symbols_by_their_end() {
    assert_eq!(run("completed", Some("success")), ("✔", Color::Green));
    assert_eq!(run("completed", Some("failure")), ("⚠", Color::Red));
    assert_eq!(run("completed", Some("timed_out")), ("⚠", Color::Red));
    assert_eq!(run("completed", Some("cancelled")), ("∅", Color::Gray));
    assert_eq!(run("completed", Some("skipped")), ("⏭", Color::Magenta));
    assert_eq!(run("completed", Some("neutral")), ("⏺", Color::Green));
    assert_eq!(run("completed", None), ("⏺", Color::Green));
}

#[test]
fn jobs_have_symbols() {
    assert_eq!(job(Status::InProgress, None), ("⏵", Color::Yellow));
    assert_eq!(job(Status::Failed, Some(Conclusion::Success)), ("⚠", Color::Red));
    assert_eq!(job(Status::Other, None), ("?", Color::Magenta));
    assert_eq!(job(Status::Completed, Some(Conclusion::ActionRequired)), ("⏺", Color::Green));
    assert_eq!(job(Status::Completed, Some(Conclusion::Other)), ("⏺", Color::Green));
}

#[test]
fn runs_and_jobs_of_the_same_words_look_alike() {
    let states = [
        (Status::Pending, "pending"),
        (Status::Queued, "queued"),
        (Status::InProgress, "in_progress"),
        (Status::Completed, "completed"),
        (Status::Failed, "failed"),
    ];
    let ends = [
        (Conclusion::ActionRequired, "action_required"),
        (Conclusion::Cancelled, "cancelled"),
        (Conclusion::Failure, "failure"),
        (Conclusion::Neutral, "neutral"),
        (Conclusion::Skipped, "skipped"),
        (Conclusion::Success, "success"),
        (Conclusion::TimedOut, "timed_out"),
    ];
    for (status, word) in states {
        assert_eq!(job(status, None), run(word, None));
        for (end, end_word) in ends {
            assert_eq!(job(status, Some(end)), run(word, Some(end_word)));
        }
    }
}

#[test]
fn pairs_become_displays() {
    let shown = StatusDisplay::from(("x", Color::White));
    assert_eq!(shown.symbol, "x");
    assert_eq!(shown.color, Color::White);
}
