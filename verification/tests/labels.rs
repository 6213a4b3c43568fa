use parareview::document::index_label;

#[test]
fn digit_labels() {
    assert_eq!(index_label(0), "1");
    assert_eq!(index_label(4), "5");
    assert_eq!(index_label(8), "9");
}

#[test]
fn single_letter_labels() {
    assert_eq!(index_label(9), "a");
    assert_eq!(index_label(10), "b");
    assert_eq!(index_label(34), "z");
}

#[test]
fn double_letter_labels() {
    assert_eq!(index_label(35), "aa");
    assert_eq!(index_label(36), "ab");
    assert_eq!(index_label(60), "az");
    assert_eq!(index_label(61), "ba");
    assert_eq!(index_label(710), "zz");
}

#[test]
fn labels_unique_up_to_711() {
    let labels: Vec<String> = (0..711).map(index_label).collect();
    for i in 0..labels.len() {
        for j in (i + 1)..labels.len() {
            assert_ne!(labels[i], labels[j], "labels for {} and {} collide", i, j);
        }
    }
}

#[test]
fn label_length_non_decreasing() {
    let mut prev = 0;
    for i in 0..800 {
        let len = index_label(i).len();
        assert!(len >= prev, "label length shrank at {}", i);
        prev = len;
    }
}

#[test]
fn labels_repeat_beyond_711() {
    assert_eq!(index_label(711), index_label(35));
}
