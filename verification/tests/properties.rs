use knowcodeextra::admin::default_page;
use knowcodeextra::admin::default_passing_score;
use knowcodeextra::admin::default_per_page;
use knowcodeextra::config::Config;
use knowcodeextra::grading::find_consecutive_correct;
use knowcodeextra::grading::find_prosigns;
use knowcodeextra::grading::grade_questions;
use knowcodeextra::jwt::bearer_token;
use knowcodeextra::jwt::credentials_valid;
use knowcodeextra::jwt::make_claims;
use knowcodeextra::jwt::LoginRequest;
use knowcodeextra::normalize::normalize_text;

fn pairs(entries: &[(&str, &str)]) -> Vec<(String, String)> {
    let mut v: Vec<(String, String)> = Vec::new();
    for (a, b) in entries {
        v.push((a.to_string(), b.to_string()));
    }
    v
}

#[test]
fn normalize_is_idempotent_on_samples() {
    for s in ["  hello   world  ", "cq\tcq\nde w6jsv", "", "   ", "A  B"] {
        let once = normalize_text(s);
        let twice = normalize_text(&once);
        assert_eq!(once, twice);
    }
}

#[test]
fn normalize_is_case_insensitive() {
    assert_eq!(normalize_text("cq cq"), normalize_text("CQ CQ"));
}

#[test]
fn normalize_collapses_tabs_and_newlines() {
    assert_eq!(normalize_text("a\tb\nc"), "A B C");
    assert_eq!(normalize_text(""), "");
    assert_eq!(normalize_text(" \t\n "), "");
}

#[test]
fn empty_texts_grade_zero_with_any_table() {
    let table = pairs(&[("<BT>", "="), ("<AR>", "+")]);
    assert_eq!(find_consecutive_correct("anything at all", "", &table), 0);
    assert_eq!(find_consecutive_correct("", "anything at all", &table), 0);
    assert_eq!(find_consecutive_correct("", "", &table), 0);
    assert_eq!(find_consecutive_correct("   ", "TEST", &table), 0);
}

#[test]
fn identical_calls_return_identical_results() {
    let table = pairs(&[("<BT>", "=")]);
    let a = find_consecutive_correct("TEST = TEST", "TEST <BT> TEST", &table);
    let b = find_consecutive_correct("TEST = TEST", "TEST <BT> TEST", &table);
    assert_eq!(a, b);
}

#[test]
fn trailing_noise_never_decreases_the_score() {
    let base = find_consecutive_correct("CQ CQ DE", "CQ CQ DE W6JSV", &[]);
    let noisy = find_consecutive_correct("CQ CQ DE ZZZ", "CQ CQ DE W6JSV", &[]);
    assert!(noisy >= base);
}

#[test]
fn table_order_breaks_ties_at_one_position() {
    // Both prosigns occur at position 0 of the reference; the matching
    // step takes the first table entry found there.
    let ab_first = pairs(&[("AB", "x"), ("ABC", "y")]);
    assert_eq!(find_consecutive_correct("x", "ABC", &ab_first), 1);
    assert_eq!(find_consecutive_correct("y", "ABC", &ab_first), 0);

    let abc_first = pairs(&[("ABC", "y"), ("AB", "x")]);
    assert_eq!(find_consecutive_correct("y", "ABC", &abc_first), 1);
    assert_eq!(find_consecutive_correct("x", "ABC", &abc_first), 0);
}

#[test]
fn duplicate_table_entries_are_harmless() {
    let table = pairs(&[("<BT>", "="), ("<BT>", "=")]);
    let result = find_consecutive_correct("TEST = TEST", "TEST <BT> TEST", &table);
    assert!(result >= 11);
}

#[test]
fn overlapping_occurrences_are_all_candidates() {
    // "AA" occurs at positions 0 and 1 of "AAA"; the alternate may stand
    // in at position 0 and the remaining character still matches.
    let table = pairs(&[("AA", "=")]);
    assert_eq!(find_consecutive_correct("=A", "AAA", &table), 2);
}

#[test]
fn failed_prosign_ends_the_run_without_failing_the_call() {
    let table = pairs(&[("<BT>", "=")]);
    assert_eq!(find_consecutive_correct("TEST QQ", "TEST <BT>", &table), 5);
}

#[test]
fn empty_alternate_matches_silently() {
    let table = pairs(&[("<BT>", "")]);
    assert_eq!(
        find_consecutive_correct("TEST TEST", "TEST <BT>TEST", &table),
        9
    );
}

#[test]
fn find_prosigns_reports_positions_and_spellings() {
    let table = pairs(&[("<bt>", "=")]);
    let occs = find_prosigns("TEST <BT> TEST", &table);
    assert_eq!(occs.len(), 1);
    assert_eq!(occs[0].position, 5);
    assert_eq!(occs[0].token_len, 4);
    let primary: String = occs[0].primary.iter().collect();
    let alternate: String = occs[0].alternate.iter().collect();
    assert_eq!(primary, "<BT>");
    assert_eq!(alternate, "=");
}

#[test]
fn find_prosigns_sorts_by_position_with_table_order_ties() {
    let table = pairs(&[("CD", "1"), ("AB", "2"), ("ABCD", "3")]);
    let occs = find_prosigns("ABCD", &table);
    let summary: Vec<(usize, String)> = occs
        .iter()
        .map(|o| (o.position, o.primary.iter().collect::<String>()))
        .collect();
    assert_eq!(
        summary,
        vec![
            (0, "AB".to_string()),
            (0, "ABCD".to_string()),
            (2, "CD".to_string()),
        ]
    );
}

#[test]
fn grade_questions_reports_each_question_once() {
    let answers = pairs(&[("q2", "c"), ("q1", "A")]);
    let correct = pairs(&[("q1", "A"), ("q2", "B"), ("q3", "D")]);
    let (score, results) = grade_questions(&answers, &correct);
    assert_eq!(score, 1);
    assert_eq!(results.len(), 3);
    assert_eq!(results[0].question_id, "q1");
    assert!(results[0].correct);
    assert_eq!(results[0].user_answer.as_deref(), Some("A"));
    assert_eq!(results[1].question_id, "q2");
    assert!(!results[1].correct);
    assert_eq!(results[1].user_answer.as_deref(), Some("c"));
    assert_eq!(results[2].question_id, "q3");
    assert!(!results[2].correct);
    assert_eq!(results[2].user_answer, None);
    assert_eq!(results[2].correct_answer, "D");
}

#[test]
fn grade_questions_takes_the_first_recorded_answer() {
    let answers = pairs(&[("q1", "b"), ("q1", "a")]);
    let correct = pairs(&[("q1", "B")]);
    let (score, results) = grade_questions(&answers, &correct);
    assert_eq!(score, 1);
    assert!(results[0].correct);
}

#[test]
fn config_defaults_hold_their_documented_values() {
    let c = Config::defaults();
    assert_eq!(c.database_url, "sqlite:knowcodeextra.db");
    assert_eq!(c.listen_addr, "0.0.0.0:3000");
    assert_eq!(c.static_dir, "./static");
    assert_eq!(c.log_level, "knowcodeextra=info,tower_http=info");
    assert_eq!(c.admin_username, "admin");
    assert_eq!(c.admin_password, "changeme");
    assert_eq!(c.admin_jwt_secret, "change-this-secret-in-production");
}

#[test]
fn admin_defaults_hold_their_documented_values() {
    assert_eq!(default_passing_score(), 7);
    assert_eq!(default_page(), 1);
    assert_eq!(default_per_page(), 25);
}

#[test]
fn bearer_token_strips_exactly_the_prefix() {
    assert_eq!(bearer_token("Bearer abc.def").as_deref(), Some("abc.def"));
    assert_eq!(bearer_token("Bearer ").as_deref(), Some(""));
    assert_eq!(bearer_token("Basic abc"), None);
    assert_eq!(bearer_token(""), None);
    assert_eq!(bearer_token("bearer abc"), None);
}

#[test]
fn credentials_and_claims_behave_as_documented() {
    let req = LoginRequest {
        username: "admin".to_string(),
        password: "changeme".to_string(),
    };
    assert!(credentials_valid(&req, "admin", "changeme"));
    assert!(!credentials_valid(&req, "admin", "other"));
    assert!(!credentials_valid(&req, "root", "changeme"));

    let claims = make_claims("admin".to_string(), 1_000_000);
    assert_eq!(claims.sub, "admin");
    assert_eq!(claims.iat, 1_000_000);
    assert_eq!(claims.exp, 1_000_000 + 8 * 3600);
}
