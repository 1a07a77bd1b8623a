use latex2anki::parser::{contains_marker, parse_document, scan_next_card, suppression_string};

fn lines_of(text: &str) -> Vec<String> {
    text.lines().map(String::from).collect()
}

#[test]
fn marker_matches_anywhere_in_line() {
    assert!(contains_marker("%Q", "%Q"));
    assert!(contains_marker("some text %Q more", "%Q"));
    assert!(contains_marker("\\begin{document} trailing", "\\begin{document}"));
    assert!(!contains_marker("no marker here", "%Q"));
    assert!(!contains_marker("%q lower case", "%Q"));
    assert!(!contains_marker("", "%F"));
}

#[test]
fn single_card_document() {
    let lines = lines_of("\\begin{document}\n%Q\nA\n%R\nB\n%F\n\\end{document}");
    let parsed = parse_document(&lines);
    assert_eq!(parsed.header, vec!["\\pagenumbering{gobble}".to_string()]);
    assert_eq!(parsed.cards.len(), 1);
    assert_eq!(parsed.cards[0].question, vec!["A".to_string()]);
    assert_eq!(parsed.cards[0].answer, vec!["B".to_string()]);
}

#[test]
fn input_ending_mid_answer_yields_no_cards() {
    let lines = lines_of("%Q\nA\n%R\nB");
    let parsed = parse_document(&lines);
    assert_eq!(parsed.cards.len(), 0);
}

#[test]
fn truncated_card_after_sentinel_counts_as_trailing() {
    let lines = lines_of("\\begin{document}\n%Q\nA\n%R\nB");
    let parsed = parse_document(&lines);
    assert_eq!(parsed.cards.len(), 0);
    assert_eq!(parsed.trailing_lines, 5);
}

#[test]
fn no_question_marker_keeps_whole_input_as_header() {
    let lines = lines_of("\\documentclass{article}\n\\usepackage{amsmath}");
    let parsed = parse_document(&lines);
    assert_eq!(
        parsed.header,
        vec![
            "\\documentclass{article}".to_string(),
            "\\usepackage{amsmath}".to_string(),
            "\\pagenumbering{gobble}".to_string(),
        ]
    );
    assert_eq!(parsed.cards.len(), 0);
}

#[test]
fn header_stops_before_sentinel_line() {
    let lines = lines_of("one\ntwo\nmid \\begin{document} text\nrest");
    let parsed = parse_document(&lines);
    assert_eq!(
        parsed.header,
        vec![
            "one".to_string(),
            "two".to_string(),
            "\\pagenumbering{gobble}".to_string(),
        ]
    );
}

#[test]
fn complete_triples_counted_and_partial_dropped() {
    let text = "\\begin{document}\n%Q\nq1\n%R\na1\n%F\n%Q\nq2\n%R\na2\n%F\n%Q\nq3\n%R\na3";
    let lines = lines_of(text);
    let parsed = parse_document(&lines);
    assert_eq!(parsed.cards.len(), 2);
    assert_eq!(parsed.cards[0].question, vec!["q1".to_string()]);
    assert_eq!(parsed.cards[0].answer, vec!["a1".to_string()]);
    assert_eq!(parsed.cards[1].question, vec!["q2".to_string()]);
    assert_eq!(parsed.cards[1].answer, vec!["a2".to_string()]);
}

#[test]
fn multi_line_question_and_answer() {
    let lines = lines_of("\\begin{document}\n%Q\nq one\nq two\n%R\na one\na two\n%F");
    let parsed = parse_document(&lines);
    assert_eq!(parsed.cards.len(), 1);
    assert_eq!(
        parsed.cards[0].question,
        vec!["q one".to_string(), "q two".to_string()]
    );
    assert_eq!(
        parsed.cards[0].answer,
        vec!["a one".to_string(), "a two".to_string()]
    );
}

#[test]
fn parsing_twice_gives_identical_results() {
    let lines = lines_of("head\n\\begin{document}\n%Q\nA\n%R\nB\n%F\ntail");
    let first = parse_document(&lines);
    let second = parse_document(&lines);
    assert_eq!(first.header, second.header);
    assert_eq!(first.trailing_lines, second.trailing_lines);
    assert_eq!(first.cards.len(), second.cards.len());
    for (a, b) in first.cards.iter().zip(second.cards.iter()) {
        assert_eq!(a.question, b.question);
        assert_eq!(a.answer, b.answer);
    }
}

#[test]
fn scan_next_card_finds_card_and_clean_point() {
    let lines = lines_of("x\n%Q\nA\n%R\nB\n%F\nrest");
    let found = scan_next_card(&lines, 0);
    let (card, next) = found.expect("one complete card");
    assert_eq!(card.question, vec!["A".to_string()]);
    assert_eq!(card.answer, vec!["B".to_string()]);
    assert_eq!(next, 6);
    assert!(scan_next_card(&lines, next).is_none());
}

#[test]
fn suppression_line_text() {
    assert_eq!(suppression_string(), "\\pagenumbering{gobble}".to_string());
}

#[test]
fn split_lines_at_newlines() {
    assert_eq!(
        latex2anki::lines::split_lines("a\nb\nc"),
        vec!["a".to_string(), "b".to_string(), "c".to_string()]
    );
    assert_eq!(latex2anki::lines::split_lines(""), Vec::<String>::new());
    assert_eq!(latex2anki::lines::split_lines("one line"), vec!["one line".to_string()]);
}

#[test]
fn split_lines_handles_terminators_like_std() {
    let samples = [
        "a\nb",
        "a\r\nb",
        "a\n",
        "a\r\n",
        "\n",
        "a\n\nb",
        "a\r",
        "a\r\rb\r\n",
        "trailing text",
    ];
    for text in samples {
        let expected: Vec<String> = text.lines().map(String::from).collect();
        assert_eq!(latex2anki::lines::split_lines(text), expected);
    }
}
