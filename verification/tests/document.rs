use parareview::document::Document;

#[test]
fn load_empty_text_gives_one_empty_paragraph() {
    let d = Document::load("");
    assert_eq!(d.paragraphs, vec![String::new()]);
    assert_eq!(d.selected, 0);
    assert_eq!(d.scroll, 0);
}

#[test]
fn load_only_blank_lines_gives_one_empty_paragraph() {
    let d = Document::load("\n\n\n\n");
    assert_eq!(d.paragraphs, vec![String::new()]);
    assert_eq!(d.selected, 0);
}

#[test]
fn load_splits_on_blank_lines_in_order() {
    let d = Document::load("A\n\nB\n\nC");
    assert_eq!(d.paragraphs, vec!["A".to_string(), "B".to_string(), "C".to_string()]);
    assert_eq!(d.selected, 0);
}

#[test]
fn load_keeps_single_newlines_inside_paragraphs() {
    let d = Document::load("line one\nline two\n\nsecond");
    assert_eq!(
        d.paragraphs,
        vec!["line one\nline two".to_string(), "second".to_string()]
    );
}

#[test]
fn new_document_has_one_empty_paragraph() {
    let d = Document::new();
    assert_eq!(d.paragraphs, vec![String::new()]);
    assert_eq!(d.selected, 0);
    assert_eq!(d.scroll, 0);
}

#[test]
fn selection_saturates_at_both_ends() {
    let mut d = Document::load("a\n\nb\n\nc");
    assert_eq!(d.selected, 0);
    d.select_prev();
    assert_eq!(d.selected, 0);
    d.select_next();
    assert_eq!(d.selected, 1);
    d.select_next();
    assert_eq!(d.selected, 2);
    d.select_next();
    assert_eq!(d.selected, 2);
    d.select_prev();
    assert_eq!(d.selected, 1);
}

#[test]
fn selection_stays_in_bounds_over_any_walk() {
    let mut d = Document::load("a\n\nb\n\nc\n\nd");
    let walk = [1, 1, 0, 1, 0, 0, 0, 1, 1, 1, 1, 1, 0, 1, 0];
    for step in walk {
        if step == 1 {
            d.select_next();
        } else {
            d.select_prev();
        }
        assert!(d.selected < d.paragraphs.len());
    }
}

#[test]
fn navigation_updates_scroll_hint() {
    let mut d = Document::load("a\n\nb\n\nc\n\nd\n\ne\n\nf");
    d.select_next();
    assert_eq!(d.scroll, 0);
    d.select_next();
    assert_eq!(d.scroll, 0);
    d.select_next();
    assert_eq!(d.scroll, 1);
    d.select_next();
    assert_eq!(d.scroll, 2);
    d.select_next();
    assert_eq!(d.scroll, 3);
    d.select_prev();
    assert_eq!(d.scroll, 2);
}

#[test]
fn selection_on_single_paragraph_never_moves() {
    let mut d = Document::new();
    d.select_next();
    assert_eq!(d.selected, 0);
    d.select_prev();
    assert_eq!(d.selected, 0);
}
