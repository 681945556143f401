use knowcodeextra::grading::find_consecutive_correct;
use knowcodeextra::grading::grade_questions;
use knowcodeextra::normalize::normalize_text;

fn pairs(entries: &[(&str, &str)]) -> Vec<(String, String)> {
    let mut v: Vec<(String, String)> = Vec::new();
    for (a, b) in entries {
        v.push((a.to_string(), b.to_string()));
    }
    v
}

#[test]
fn test_normalize_text() {
    assert_eq!(normalize_text("hello world"), "HELLO WORLD");
    assert_eq!(normalize_text("  hello   world  "), "HELLO WORLD");
    assert_eq!(normalize_text("CQ CQ de W6JSV"), "CQ CQ DE W6JSV");
}

#[test]
fn test_grade_questions_all_correct() {
    let answers = pairs(&[("q1", "A"), ("q2", "B")]);
    let correct = pairs(&[("q1", "A"), ("q2", "B")]);

    let (score, _) = grade_questions(&answers, &correct);
    assert_eq!(score, 2);
}

#[test]
fn test_grade_questions_case_insensitive() {
    let answers = pairs(&[("q1", "a")]);
    let correct = pairs(&[("q1", "A")]);

    let (score, _) = grade_questions(&answers, &correct);
    assert_eq!(score, 1);
}

#[test]
fn test_grade_questions_missing_answer() {
    let answers: Vec<(String, String)> = Vec::new();
    let correct = pairs(&[("q1", "A")]);

    let (score, results) = grade_questions(&answers, &correct);
    assert_eq!(score, 0);
    assert!(!results[0].correct);
}

#[test]
fn test_find_consecutive_correct_exact_match() {
    let result = find_consecutive_correct("CQ CQ DE W6JSV", "CQ CQ DE W6JSV", &[]);
    assert_eq!(result, 14); // "CQ CQ DE W6JSV" normalized
}

#[test]
fn test_find_consecutive_correct_partial_match() {
    let result = find_consecutive_correct(
        "GARBAGE CQ CQ DE W6JSV MORE GARBAGE",
        "CQ CQ DE W6JSV",
        &[],
    );
    assert_eq!(result, 14);
}

#[test]
fn test_find_consecutive_correct_with_prosign() {
    let mappings = vec![("<BT>".to_string(), "=".to_string())];
    let result = find_consecutive_correct("TEST = TEST", "TEST <BT> TEST", &mappings);
    // "TEST = TEST" matches "TEST <BT> TEST" when = is alternate for <BT>
    assert!(result >= 11); // At least "TEST = TEST" length
}

#[test]
fn test_find_consecutive_correct_prosign_as_prosign() {
    let mappings = vec![("<BT>".to_string(), "=".to_string())];
    let result = find_consecutive_correct("TEST <BT> TEST", "TEST <BT> TEST", &mappings);
    assert!(result >= 14);
}

#[test]
fn test_find_consecutive_correct_case_insensitive() {
    let result = find_consecutive_correct("cq cq de w6jsv", "CQ CQ DE W6JSV", &[]);
    assert_eq!(result, 14);
}

#[test]
fn test_find_consecutive_correct_empty() {
    assert_eq!(find_consecutive_correct("", "TEST", &[]), 0);
    assert_eq!(find_consecutive_correct("TEST", "", &[]), 0);
}
