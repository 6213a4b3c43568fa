use parareview::agent::{Agent, MockAgent, Prompt};

#[test]
fn prompt_keeps_its_three_parts() {
    let p = Prompt::new("sys", "fix this", "some text");
    assert_eq!(p.system, "sys");
    assert_eq!(p.instruction, "fix this");
    assert_eq!(p.content, "some text");
}

#[test]
fn short_content_is_returned_unchanged() {
    let agent = MockAgent::new();
    let p = Prompt::new("sys", "improve", "a b c");
    let s = agent.suggest(&p);
    assert_eq!(s.original, "a b c");
    assert_eq!(s.replacement, "a b c");
    assert_eq!(s.explanation, "Text is too short to analyze.");
}

#[test]
fn four_words_swap_positions_one_and_three() {
    let agent = MockAgent::new();
    let p = Prompt::new("sys", "improve", "a b c d");
    let s = agent.suggest(&p);
    assert_eq!(s.original, "a b c d");
    assert_eq!(s.replacement, "a d c b");
    assert_eq!(s.explanation, "Swapped a few words for better flow.");
}

#[test]
fn eight_words_swap_two_pairs() {
    let agent = MockAgent::new();
    let p = Prompt::new("sys", "improve", "a b c d e f g h");
    let s = agent.suggest(&p);
    assert_eq!(s.replacement, "a d c b e h g f");
}

#[test]
fn seven_words_swap_only_the_first_pair() {
    let agent = MockAgent::new();
    let p = Prompt::new("sys", "improve", "a b c d e f g");
    let s = agent.suggest(&p);
    assert_eq!(s.replacement, "a d c b e f g");
}

#[test]
fn words_split_on_any_whitespace_and_rejoin_with_spaces() {
    let agent = MockAgent::new();
    let p = Prompt::new("sys", "improve", "a\tb\nc   d");
    let s = agent.suggest(&p);
    assert_eq!(s.original, "a\tb\nc   d");
    assert_eq!(s.replacement, "a d c b");
}

#[test]
fn empty_content_is_returned_unchanged() {
    let agent = MockAgent::new();
    let p = Prompt::new("sys", "improve", "");
    let s = agent.suggest(&p);
    assert_eq!(s.replacement, "");
    assert!(!s.explanation.is_empty());
}

#[test]
fn explanation_is_never_empty() {
    let agent = MockAgent::new();
    for content in ["", "one", "one two three four", "w x y z a b c d e"] {
        let s = agent.suggest(&Prompt::new("sys", "improve", content));
        assert!(!s.explanation.is_empty());
        assert_eq!(s.original, content);
    }
}
