use parareview::agent::{MockAgent, Suggestion};
use parareview::app::{App, AppMode, Role};
use parareview::document::Document;

fn suggestion(original: &str, replacement: &str) -> Suggestion {
    Suggestion {
        original: original.to_string(),
        replacement: replacement.to_string(),
        explanation: "why not".to_string(),
    }
}

#[test]
fn new_session_starts_in_normal_mode() {
    let app = App::new();
    assert!(app.running);
    assert!(app.input.is_empty());
    assert!(app.conversation.is_empty());
    assert_eq!(app.document.paragraphs, vec![String::new()]);
    assert!(matches!(app.mode, AppMode::Normal));
    assert!(!app.system_prompt.is_empty());
}

#[test]
fn load_session_seeds_the_document() {
    let app = App::load("A\n\nB");
    assert_eq!(app.document.paragraphs, vec!["A".to_string(), "B".to_string()]);
    assert!(matches!(app.mode, AppMode::Normal));
}

#[test]
fn quit_stops_the_loop() {
    let mut app = App::new();
    app.quit();
    assert!(!app.running);
}

#[test]
fn accepting_writes_the_replacement_in_place() {
    let mut app = App::load("p\n\nq\n\nr");
    app.enter_review(suggestion("q", "X"), 1);
    app.accept_suggestion();
    assert_eq!(
        app.document.paragraphs,
        vec!["p".to_string(), "X".to_string(), "r".to_string()]
    );
    assert!(matches!(app.mode, AppMode::Normal));
    assert_eq!(app.conversation.len(), 1);
    assert_eq!(app.conversation[0].role, Role::Assistant);
    assert_eq!(app.conversation[0].content, "Change accepted.");
}

#[test]
fn rejecting_leaves_the_document_unchanged() {
    let mut app = App::load("p\n\nq\n\nr");
    app.enter_review(suggestion("q", "X"), 1);
    app.reject_suggestion();
    assert_eq!(
        app.document.paragraphs,
        vec!["p".to_string(), "q".to_string(), "r".to_string()]
    );
    assert!(matches!(app.mode, AppMode::Normal));
    assert_eq!(app.conversation.len(), 1);
    assert_eq!(app.conversation[0].role, Role::Assistant);
    assert_eq!(app.conversation[0].content, "Change discarded.");
}

#[test]
fn accepting_outside_review_is_a_no_op() {
    let mut app = App::load("p\n\nq");
    app.accept_suggestion();
    assert_eq!(app.document.paragraphs, vec!["p".to_string(), "q".to_string()]);
    assert!(app.conversation.is_empty());
    assert!(matches!(app.mode, AppMode::Normal));
}

#[test]
fn rejecting_outside_review_is_a_no_op() {
    let mut app = App::load("p\n\nq");
    app.reject_suggestion();
    assert!(app.conversation.is_empty());
    assert!(matches!(app.mode, AppMode::Normal));
}

#[test]
fn submitting_an_instruction_enters_review() {
    let agent = MockAgent::new();
    let mut app = App::new();
    app.document = Document::load("a b c d");
    app.input = "please improve".to_string();
    app.submit_instruction(&agent);
    assert!(app.input.is_empty());
    assert_eq!(app.conversation.len(), 2);
    assert_eq!(app.conversation[0].role, Role::User);
    assert_eq!(app.conversation[0].content, "please improve");
    assert_eq!(app.conversation[1].role, Role::Assistant);
    assert_eq!(app.conversation[1].content, "Swapped a few words for better flow.");
    match &app.mode {
        AppMode::Review { suggestion, paragraph_index } => {
            assert_eq!(*paragraph_index, 0);
            assert_eq!(suggestion.original, "a b c d");
            assert_eq!(suggestion.replacement, "a d c b");
        }
        AppMode::Normal => panic!("expected review mode"),
    }
}

#[test]
fn submitting_with_empty_input_does_nothing() {
    let agent = MockAgent::new();
    let mut app = App::load("a b c d");
    app.submit_instruction(&agent);
    assert!(app.conversation.is_empty());
    assert!(matches!(app.mode, AppMode::Normal));
}

#[test]
fn submitting_during_review_does_nothing() {
    let agent = MockAgent::new();
    let mut app = App::load("a b c d");
    app.enter_review(suggestion("a b c d", "X"), 0);
    app.input = "again".to_string();
    app.submit_instruction(&agent);
    assert_eq!(app.conversation.len(), 0);
    assert_eq!(app.input, "again");
    assert!(matches!(app.mode, AppMode::Review { .. }));
}

#[test]
fn full_review_round_trip() {
    let agent = MockAgent::new();
    let mut app = App::load("one two three four\n\nkeep me");
    app.input = "swap".to_string();
    app.submit_instruction(&agent);
    app.accept_suggestion();
    assert_eq!(
        app.document.paragraphs,
        vec!["one four three two".to_string(), "keep me".to_string()]
    );
    assert_eq!(app.conversation.len(), 3);
    assert_eq!(app.conversation[2].content, "Change accepted.");
}
