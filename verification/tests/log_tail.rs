use gal::log_tail::{extract_step_log_tail, normalize_log_match_key};

#[test]
fn keys_are_words_in_lower_case() {
    assert_eq!(normalize_log_match_key("  Build & Test (ubuntu-22.04)! "), "build test ubuntu 22 04");
    assert_eq!(normalize_log_match_key("Größe"), "gr e");
    assert_eq!(normalize_log_match_key("--"), "");
    assert_eq!(normalize_log_match_key(""), "");
}

#[test]
fn keys_are_their_own_keys_and_ignore_case() {
    let key = normalize_log_match_key("1_Build/Step  TWO.txt");
    assert_eq!(key, "1 build step two txt");
    assert_eq!(normalize_log_match_key(&key), key);
    assert_eq!(normalize_log_match_key("1_bUILD/sTEP  two.TXT"), key);
    assert!(key.chars().all(|c| c == ' ' || c.is_ascii_digit() || c.is_ascii_lowercase()));
}

const LOG: &str = "##[group]Run actions/checkout@v4\nchecking out\n##[group]Run cargo test\nrunning 3 tests\r\ntest a ... FAILED\n\n   \n##[group]Run cargo doc\ndocs\n";

#[test]
fn the_output_of_a_step_ends_where_the_next_opens() {
    assert_eq!(
        extract_step_log_tail(LOG, "cargo test", 100),
        vec!["##[group]Run cargo test", "running 3 tests", "test a ... FAILED"]
    );
    assert_eq!(extract_step_log_tail(LOG, "Cargo Doc", 100), vec!["##[group]Run cargo doc", "docs"]);
}

#[test]
fn tails_are_the_last_lines() {
    assert_eq!(
        extract_step_log_tail(LOG, "cargo test", 2),
        vec!["running 3 tests", "test a ... FAILED"]
    );
    assert_eq!(extract_step_log_tail(LOG, "cargo test", 0), Vec::<String>::new());
}

#[test]
fn steps_are_found_without_the_word_run() {
    let log = "a\nSetup  Toolchain begins\nb\n";
    assert_eq!(
        extract_step_log_tail(log, "setup toolchain", 10),
        vec!["Setup  Toolchain begins", "b"]
    );
    // A later line with "run" before the name is preferred to an earlier one without it.
    let log = "setup\nx\nrun setup\ny";
    assert_eq!(extract_step_log_tail(log, "Setup", 10), vec!["run setup", "y"]);
}

#[test]
fn steps_that_are_not_mentioned_begin_at_the_first_line() {
    assert_eq!(
        extract_step_log_tail(LOG, "no such step", 10),
        vec!["##[group]Run actions/checkout@v4", "checking out"]
    );
}

#[test]
fn empty_logs_have_no_tail() {
    assert_eq!(extract_step_log_tail("", "x", 10), Vec::<String>::new());
    assert_eq!(extract_step_log_tail("\n \n\t\r\n", "x", 10), Vec::<String>::new());
}

#[test]
fn only_line_feeds_end_lines() {
    assert_eq!(extract_step_log_tail("a\rb\r\nc\r", "x", 10), vec!["a\rb", "c\r"]);
}

#[test]
fn keys_split_where_words_do() {
    for (a, b, whole) in [("Build", "Test", "build test"), ("", "X", "x"), ("X", "", "x"), ("!", "-", "")] {
        for c in [' ', '/', 'é'] {
            assert_eq!(normalize_log_match_key(&format!("{a}{c}{b}")), whole);
        }
    }
    // A letter is no place to split at.
    assert_eq!(normalize_log_match_key("BuildxTest"), "buildxtest");
}
