//! Text of the notification sent when a test attempt is submitted.
//! Delivering it is the caller's concern.

use vstd::prelude::*;
use vstd::string::StringExecFns;

use crate::strings::chars_to_string;
use crate::strings::str_to_string;
use crate::strings::sub_chars;
use crate::strings::to_chars;

verus! {

/// A text with every trailing slash removed.
pub open spec fn trim_trailing_slashes(s: Seq<char>) -> Seq<char>
    decreases s.len(),
{
    if s.len() > 0 && s[s.len() - 1] == '/' {
        trim_trailing_slashes(s.take(s.len() - 1))
    } else {
        s
    }
}

/// The notification body for a submitted attempt: the callsign and
/// whether it passed.
pub fn notification_body(callsign: &str, passed: bool) -> (r: String)
    ensures
        r@ == callsign@ + " submitted - "@ + if passed {
            "PASSED"@
        } else {
            "FAILED"@
        },
{
    let mut body = str_to_string(callsign);
    body.append(" submitted - ");
    if passed {
        body.append("PASSED");
    } else {
        body.append("FAILED");
    }
    body
}

/// The notification endpoint: the base address without its trailing
/// slashes, a single slash, and the topic.
pub fn notification_url(base: &str, topic: &str) -> (r: String)
    ensures
        r@ == trim_trailing_slashes(base@) + "/"@ + topic@,
{
    let chars = to_chars(base);
    let mut n = chars.len();
    proof {
        assert(base@.take(base@.len() as int) =~= base@);
    }
    while n > 0 && chars[n - 1] == '/'
        invariant
            n <= chars@.len(),
            chars@ == base@,
            trim_trailing_slashes(base@) == trim_trailing_slashes(base@.take(n as int)),
        decreases n,
    {
        proof {
            assert(base@.take(n as int).take(n - 1 as int) =~= base@.take(n - 1 as int));
            assert(base@.take(n as int)[n - 1 as int] == base@[n - 1 as int]);
        }
        n = n - 1;
    }
    proof {
        assert(trim_trailing_slashes(base@.take(n as int)) == base@.take(n as int));
    }
    let trimmed = sub_chars(&chars, 0, n);
    proof {
        assert(base@.subrange(0, n as int) =~= base@.take(n as int));
    }
    let mut url = chars_to_string(&trimmed);
    url.append("/");
    url.append(topic);
    url
}

} // verus!
