use eutils::confirm::{classify_response, confirmation_outcome, Response};

#[test]
fn classify_accepts_yes_and_no_case_insensitively() {
    assert_eq!(classify_response("y"), Response::Yes);
    assert_eq!(classify_response("Y"), Response::Yes);
    assert_eq!(classify_response("n"), Response::No);
    assert_eq!(classify_response("N"), Response::No);
}

#[test]
fn classify_trims_whitespace() {
    assert_eq!(classify_response(" y "), Response::Yes);
    assert_eq!(classify_response("\tn\n"), Response::No);
    // The full Unicode white-space set is trimmed, as str::trim does.
    assert_eq!(classify_response("\u{000C}y\u{000C}"), Response::Yes);
    assert_eq!(classify_response("\u{00A0}n\u{2009}"), Response::No);
    assert_eq!(classify_response("y".trim()), Response::Yes);
}

#[test]
fn classify_rejects_everything_else() {
    assert_eq!(classify_response(""), Response::Unrecognized);
    assert_eq!(classify_response("yes"), Response::Unrecognized);
    assert_eq!(classify_response("maybe"), Response::Unrecognized);
    assert_eq!(classify_response("  "), Response::Unrecognized);
}

fn lines(items: &[&str]) -> Vec<String> {
    items.iter().map(|s| s.to_string()).collect()
}

#[test]
fn negative_answer_aborts_the_run() {
    // A "n" response refuses the whole run, whatever follows it.
    assert!(!confirmation_outcome(true, true, &lines(&["n"])));
    assert!(!confirmation_outcome(true, true, &lines(&["blah", "n", "y"])));
    assert!(!confirmation_outcome(true, true, &lines(&[" N ", "y"])));
}

#[test]
fn positive_answer_proceeds() {
    assert!(confirmation_outcome(true, true, &lines(&["y"])));
    assert!(confirmation_outcome(true, true, &lines(&["huh", "Y"])));
}

#[test]
fn prompt_only_stands_for_warned_destructive_runs() {
    // Without source deletion, or with warnings off, no prompt: the run
    // proceeds and the responses are never read.
    assert!(confirmation_outcome(false, true, &lines(&["n"])));
    assert!(confirmation_outcome(true, false, &lines(&["n"])));
    assert!(confirmation_outcome(false, false, &lines(&[])));
}

#[test]
fn exhausted_input_aborts() {
    // Input that ends without a decisive answer refuses the run: only an
    // affirmative answer lets a destructive run touch files.
    assert!(!confirmation_outcome(true, true, &lines(&[])));
    assert!(!confirmation_outcome(true, true, &lines(&["blah", "nope"])));
}
