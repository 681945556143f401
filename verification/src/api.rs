//! Plain data types of the public API: queries, statistics, questions and
//! submission results, as the surrounding service exchanges them.

use std::collections::HashMap;
use vstd::prelude::*;

verus! {

#[derive(Debug, Clone)]
pub struct StatsResponse {
    pub total_attempts: i64,
    pub total_passes: i64,
    pub unique_callsigns: i64,
    pub attempts_by_speed: Vec<SpeedStats>,
}

#[derive(Debug, Clone)]
pub struct SpeedStats {
    pub test_speed: i32,
    pub attempts: i64,
    pub passes: i64,
}

#[derive(Debug)]
pub struct ListQuery {
    pub limit: Option<i32>,
    pub offset: Option<i32>,
    pub speed: Option<i32>,
    pub passed_only: Option<bool>,
}

#[derive(Debug)]
pub struct CallsignQuery {
    pub speed: Option<i32>,
}

/// A question as shown to a test taker: the correct option is withheld.
#[derive(Debug, Clone)]
pub struct PublicQuestion {
    pub id: String,
    pub test_id: String,
    pub question_number: i32,
    pub question_text: String,
    pub option_a: String,
    pub option_b: String,
    pub option_c: String,
    pub option_d: String,
}

#[derive(Debug, Clone)]
pub struct QuestionWithAnswer {
    pub id: String,
    pub question_number: i32,
    pub question_text: String,
    pub option_a: String,
    pub option_b: String,
    pub option_c: String,
    pub option_d: String,
    pub correct_option: String,
}

#[derive(Debug)]
pub struct TestSubmissionResponse {
    pub passed: bool,
    pub score: i32,
    pub passing_score: i32,
    /// Revealed only on a pass.
    pub correct_answers: Option<HashMap<String, String>>,
    pub certificate_id: Option<String>,
}

} // verus!
