//! Parsing of QRZ directory responses: the session key and the e-mail
//! address carried in the service's XML replies. Fetching the replies is
//! the caller's concern.

use vstd::prelude::*;
use vstd::string::StringExecFns;

use crate::strings::chars_to_string;
use crate::strings::find_first;
use crate::strings::find_first_exec;
use crate::strings::str_to_string;
use crate::strings::sub_chars;
use crate::strings::to_chars;

verus! {

/// The error reported when a reply carries an explicit error element, or
/// the generic parse failure otherwise.
pub open spec fn session_key_error(xml: Seq<char>) -> Seq<char> {
    match (find_first(xml, "<Error>"@), find_first(xml, "</Error>"@)) {
        (Some(s), Some(e)) => if e >= s + 7 {
            "QRZ error: "@ + xml.subrange(s + 7, e)
        } else {
            "Could not parse QRZ session key"@
        },
        _ => "Could not parse QRZ session key"@,
    }
}

/// What extracting the session key from a reply yields: the text between
/// the first key tags when both are present in order, else the error.
pub open spec fn session_key_result(xml: Seq<char>) -> Result<Seq<char>, Seq<char>> {
    match (find_first(xml, "<Key>"@), find_first(xml, "</Key>"@)) {
        (Some(s), Some(e)) => if e >= s + 5 {
            Ok(xml.subrange(s + 5, e))
        } else {
            Err(session_key_error(xml))
        },
        _ => Err(session_key_error(xml)),
    }
}

/// The e-mail address carried by a reply: the text between the first
/// e-mail tags when both are present in order and that text is non-empty.
pub open spec fn email_result(xml: Seq<char>) -> Option<Seq<char>> {
    match (find_first(xml, "<email>"@), find_first(xml, "</email>"@)) {
        (Some(s), Some(e)) => if e >= s + 7 && xml.subrange(s + 7, e).len() > 0 {
            Some(xml.subrange(s + 7, e))
        } else {
            None
        },
        _ => None,
    }
}

/// Extract the session key from a QRZ reply, or the error it reports.
pub fn extract_session_key(xml: &str) -> (r: Result<String, String>)
    ensures
        match r {
            Ok(k) => session_key_result(xml@) == Ok::<Seq<char>, Seq<char>>(k@),
            Err(m) => session_key_result(xml@) == Err::<Seq<char>, Seq<char>>(m@),
        },
{
    proof {
        reveal_strlit("<Key>");
        reveal_strlit("</Key>");
        reveal_strlit("<Error>");
        reveal_strlit("</Error>");
    }
    let chars = to_chars(xml);
    let _chars_len = chars.len();
    let key_open = to_chars("<Key>");
    let key_close = to_chars("</Key>");
    if let Some(s) = find_first_exec(&chars, &key_open) {
        if let Some(e) = find_first_exec(&chars, &key_close) {
            if e >= s + 5 {
                let key = sub_chars(&chars, s + 5, e);
                return Ok(chars_to_string(&key));
            }
        }
    }
    let error_open = to_chars("<Error>");
    let error_close = to_chars("</Error>");
    if let Some(s) = find_first_exec(&chars, &error_open) {
        if let Some(e) = find_first_exec(&chars, &error_close) {
            if e >= s + 7 {
                let detail = sub_chars(&chars, s + 7, e);
                let detail_str = chars_to_string(&detail);
                let mut msg = str_to_string("QRZ error: ");
                msg.append(detail_str.as_str());
                return Err(msg);
            }
        }
    }
    Err(str_to_string("Could not parse QRZ session key"))
}

/// Extract the e-mail address from a QRZ reply, if it carries a non-empty
/// one.
pub fn extract_email(xml: &str) -> (r: Option<String>)
    ensures
        match r {
            Some(m) => email_result(xml@) == Some(m@),
            None => email_result(xml@) is None,
        },
{
    proof {
        reveal_strlit("<email>");
        reveal_strlit("</email>");
    }
    let chars = to_chars(xml);
    let _chars_len = chars.len();
    let open = to_chars("<email>");
    let close = to_chars("</email>");
    if let Some(s) = find_first_exec(&chars, &open) {
        if let Some(e) = find_first_exec(&chars, &close) {
            if e >= s + 7 && e - (s + 7) > 0 {
                let email = sub_chars(&chars, s + 7, e);
                return Some(chars_to_string(&email));
            }
        }
    }
    None
}

} // verus!
