use boxflow::words::{word_ranges, WordRange, SPACE};

fn ranges(text: &str) -> Vec<(usize, usize)> {
    word_ranges(text.as_bytes()).iter().map(|r| (r.start, r.end)).collect()
}

fn words(text: &str) -> Vec<&str> {
    word_ranges(text.as_bytes()).iter().map(|r| &text[r.start..r.end]).collect()
}

#[test]
fn empty_text_has_no_words() {
    assert_eq!(ranges(""), vec![]);
}

#[test]
fn a_word_keeps_the_space_after_it() {
    assert_eq!(ranges("ab cd"), vec![(0, 3), (3, 5)]);
    assert_eq!(words("ab cd"), vec!["ab ", "cd"]);
    assert_eq!(ranges("ab "), vec![(0, 3)]);
    assert_eq!(ranges("ab"), vec![(0, 2)]);
}

#[test]
fn every_space_ends_a_word() {
    assert_eq!(ranges("  a  "), vec![(0, 1), (1, 2), (2, 4), (4, 5)]);
    assert_eq!(ranges(" "), vec![(0, 1)]);
}

#[test]
fn words_are_cut_between_characters() {
    let text = "h\u{e9} \u{4e16}\u{754c} ok";
    assert_eq!(words(text), vec!["h\u{e9} ", "\u{4e16}\u{754c} ", "ok"]);
    assert_eq!(SPACE, b' ');
}

#[test]
fn words_adjoin_and_cover_the_text() {
    let text = "one two  three four ";
    let found = word_ranges(text.as_bytes());
    assert_eq!(found[0].start, 0);
    assert_eq!(found[found.len() - 1].end, text.len());
    for pair in found.windows(2) {
        assert_eq!(pair[0].end, pair[1].start);
    }
    for r in &found {
        assert!(r.start < r.end);
        assert!(!text.as_bytes()[r.start..r.end - 1].contains(&SPACE));
    }
    assert_eq!(found[1], WordRange { start: 4, end: 8 });
    assert_eq!(words(text).concat(), text);
}
