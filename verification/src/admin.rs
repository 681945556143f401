//! Plain data types of the admin API: test and question management
//! requests, queue queries and settings, with the defaults their optional
//! fields fall back to.

use vstd::prelude::*;
use vstd::string::StringExecFns;

use crate::strings::decimal_int;
use crate::strings::i32_to_string;
use crate::strings::str_to_string;

verus! {

/// The passing score a new test gets when none is given.
pub fn default_passing_score() -> (r: i32)
    ensures
        r == 7,
{
    7
}

/// The page a paginated listing starts on when none is given.
pub fn default_page() -> (r: i32)
    ensures
        r == 1,
{
    1
}

/// The page size of a paginated listing when none is given.
pub fn default_per_page() -> (r: i32)
    ensures
        r == 25,
{
    25
}

/// One line of the club-roster notes file: a member's callsign and
/// certificate number.
pub open spec fn roster_line(callsign: Seq<char>, cert: int) -> Seq<char> {
    callsign + " 🎉 Know Code Extra #"@ + decimal_int(cert) + "\n"@
}

/// The club-roster notes file for the first `n` members: the fixed header
/// followed by one line per member, in list order.
pub open spec fn roster_content(members: Seq<(String, i32)>, n: int) -> Seq<char>
    decreases n,
{
    if n <= 0 {
        "# Know Code Extra Club Members\n# Ham2K PoLo Callsign Notes - https://knowcodeextra.com\n\n"@
    } else {
        roster_content(members, n - 1) + roster_line(members[n - 1].0@, members[n - 1].1 as int)
    }
}

/// The club-roster notes file (the Ham2K PoLo callsign notes format): one
/// line per approved member, with their callsign and certificate number,
/// in the order given.
pub fn polo_notes_content(members: &Vec<(String, i32)>) -> (r: String)
    ensures
        r@ == roster_content(members@, members@.len() as int),
{
    let mut out = str_to_string(
        "# Know Code Extra Club Members\n# Ham2K PoLo Callsign Notes - https://knowcodeextra.com\n\n",
    );
    let mut i: usize = 0;
    while i < members.len()
        invariant
            i <= members@.len(),
            out@ == roster_content(members@, i as int),
        decreases members@.len() - i,
    {
        out.append(members[i].0.as_str());
        out.append(" 🎉 Know Code Extra #");
        let num = i32_to_string(members[i].1);
        out.append(num.as_str());
        out.append("\n");
        i = i + 1;
    }
    out
}

/// One labelled span of a test's audio.
#[derive(Debug, Clone)]
pub struct Segment {
    pub label: String,
    pub start_ms: i64,
    pub end_ms: i64,
}

#[derive(Debug)]
pub struct CreateTestRequest {
    pub id: String,
    pub title: String,
    pub speed_wpm: i32,
    pub year: String,
    pub audio_url: String,
    pub passing_score: i32,
}

#[derive(Debug)]
pub struct UpdateTestRequest {
    pub title: Option<String>,
    pub speed_wpm: Option<i32>,
    pub year: Option<String>,
    pub audio_url: Option<String>,
    pub passing_score: Option<i32>,
    pub active: Option<bool>,
    pub segments: Option<Vec<Segment>>,
}

/// Form data for rejecting an attempt.
pub struct RejectForm {
    pub note: Option<String>,
}

pub struct BulkIdsForm {
    pub ids: Vec<String>,
}

#[derive(Debug)]
pub struct ApprovedListQuery {
    pub page: i32,
    pub per_page: i32,
    pub reached_out: Option<bool>,
}

#[derive(Debug)]
pub struct SearchQuery {
    pub q: String,
}

/// Settings safe to show an administrator: no credentials.
#[derive(Debug)]
pub struct SettingsResponse {
    pub database_url: String,
    pub listen_addr: String,
    pub static_dir: String,
    pub log_level: String,
    pub qrz_enabled: bool,
}

#[derive(Debug)]
pub struct CreateProsignRequest {
    pub prosign: String,
    pub alternate: String,
}

#[derive(Debug)]
pub struct AllAttemptsQuery {
    pub page: i32,
    pub per_page: i32,
    pub passed: Option<bool>,
    pub callsign: Option<String>,
    pub date_from: Option<String>,
    pub date_to: Option<String>,
}

#[derive(Debug)]
pub struct CreateQuestionRequest {
    pub question_number: i32,
    pub question_text: String,
    pub option_a: String,
    pub option_b: String,
    pub option_c: String,
    pub option_d: String,
    pub correct_option: String,
}

#[derive(Debug)]
pub struct UpdateQuestionRequest {
    pub question_number: Option<i32>,
    pub question_text: Option<String>,
    pub option_a: Option<String>,
    pub option_b: Option<String>,
    pub option_c: Option<String>,
    pub option_d: Option<String>,
    pub correct_option: Option<String>,
}

} // verus!
